//! Verified core of a two-way traffic-light controller for the STM32F446:
//! GPIO register words, the traffic-intensity buttons and indicator blinking,
//! and the UART receive buffer.
pub mod constants;
pub mod gpio;
pub mod indicator;
pub mod uart;
