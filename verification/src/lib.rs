//! Verified core of a UEFI x86_64 boot chain.
//!
//! A kernel is packed into an image: a header, a table of segments, the
//! segments' bytes and a checksum. The loader finds the image in the file
//! it has read, maps each segment to the address it asks for, prepares a
//! stack and the boot information, sets a display mode and jumps to the
//! kernel. The kernel takes the framebuffer over and draws on it.
//!
//! Everything here is computation on plain values. Talking to the firmware
//! and to the hardware is left to the caller: where the work alternates
//! between the two, a small machine (`BootFlow`, `SegmentMapper`,
//! `ReadLoop`, `SoftProbe`) says what to do next and takes the outcome.
//!
//! The image and its parts:
//! [`le`], [`format`], [`crc`], [`parse`], [`inspect`].
//!
//! The packer:
//! [`elf`], [`pack`], [`layout`], [`text`], [`cli`].
//!
//! The loader:
//! [`boot`], [`map`], [`aspect`], [`mode`], [`boot_console`].
//!
//! The kernel:
//! [`boot_info`], [`framebuffer_info`], [`pixel`], [`framebuffer`],
//! [`validate`], [`fb_check`], [`console`], [`kernel`], [`serial`],
//! [`block`].

pub mod le;
pub mod format;
pub mod crc;
pub mod parse;
pub mod inspect;

pub mod elf;
pub mod pack;
pub mod layout;
pub mod text;
pub mod cli;

pub mod boot;
pub mod map;
pub mod aspect;
pub mod mode;
pub mod boot_console;

pub mod boot_info;
pub mod framebuffer_info;
pub mod pixel;
pub mod framebuffer;
pub mod validate;
pub mod fb_check;
pub mod console;
pub mod kernel;
pub mod serial;
pub mod block;
