pub mod atari;
pub mod codegen;
pub mod cpu;
pub mod cuda_env;
pub mod dispatch;
pub mod dispatch_equiv;
pub mod headless_tia;
pub mod isa;
pub mod kernel;
pub mod pia;
pub mod rl4burn_env;
pub mod rom_compiler;
pub mod tia;
