//! Verified hardware models of console devices: byte helpers, Saturn
//! system-control, video and sound devices, SNES cartridge mapping, Sega CD
//! gate-array, graphics, PCM and CD-drive logic, the 32X board, and the
//! save states of several of these devices.

pub mod bytes;
pub mod saturn_scu;
pub mod saturn_scu_state;
pub mod input;
pub mod saturn_smpc;
pub mod saturn_smpc_state;
pub mod snes_sa1;
pub mod snes_cartridge;
pub mod video;
pub mod saturn_vdp2;
pub mod saturn_vdp2_state;
pub mod saturn_vdp1;
pub mod snes_bus;
pub mod saturn_cd;
pub mod sega_cd_gate;
pub mod sega_cd_gate_state;
pub mod sega_cd_graphics;
pub mod sega_cd_graphics_state;
pub mod sega_cd_pcm;
pub mod saturn_scsp_dsp;
pub mod saturn_scsp_dsp_state;
pub mod saturn_scsp;
pub mod sega_32x;
pub mod mars_pwm;
pub mod mars_pwm_state;
pub mod mars_board;
pub mod mars_video;
pub mod saturn_cd_block;
pub mod state_bytes;
pub mod saturn_cd_state;
pub mod sega_cd_drive;
