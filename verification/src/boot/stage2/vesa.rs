//! VESA BIOS extensions: the controller and mode information blocks, and the
//! choice of a video mode.
use vstd::prelude::*;
use crate::boot::info::VideoInfo;
use crate::kernel::elf::{le16, le32, read_u16, read_u32};

verus! {

/// The VBE controller information block (its first 20 bytes).
#[derive(Debug, Clone, Copy, PartialEq, Eq, Structural)]
pub struct VBEInfo {
    pub vbe_signature: u32,
    pub vbe_version: u16,
    pub oem_string_ptr: u32,
    pub capabilities: u32,
    pub video_mode_ptr: u32,
    pub total_memory: u16,
}

/// The VBE mode information block (the fields before the reserved area).
#[derive(Debug, Clone, Copy, PartialEq, Eq, Structural)]
pub struct VBEModeInfo {
    pub attributes: u16,
    pub pitch: u16,
    pub width: u16,
    pub height: u16,
    pub bpp: u8,
    pub memory_model: u8,
    pub framebuffer: u32,
}

impl VBEInfo {
    /// Reads the controller information block.
    pub fn parse(block: &[u8]) -> (r: VBEInfo)
        requires
            block@.len() >= 20,
        ensures
            r.vbe_signature == le32(block@, 0),
            r.vbe_version == le16(block@, 4),
            r.oem_string_ptr == le32(block@, 6),
            r.capabilities == le32(block@, 10),
            r.video_mode_ptr == le32(block@, 14),
            r.total_memory == le16(block@, 18),
    {
        VBEInfo {
            vbe_signature: read_u32(block, 0),
            vbe_version: read_u16(block, 4),
            oem_string_ptr: read_u32(block, 6),
            capabilities: read_u32(block, 10),
            video_mode_ptr: read_u32(block, 14),
            total_memory: read_u16(block, 18),
        }
    }

    /// The linear address of the mode list (a real-mode segment:offset
    /// pointer, segment in the high half).
    pub fn mode_list_address(&self) -> (r: u32)
        ensures
            r == (self.video_mode_ptr / 65536) * 16 + self.video_mode_ptr % 65536,
    {
        let raw = self.video_mode_ptr;
        let segment = (raw >> 16) as u16;
        let offset = raw as u16;
        assert(segment == raw / 65536 && offset == raw % 65536) by (bit_vector)
            requires
                segment == (raw >> 16) as u16,
                offset == raw as u16,
        ;
        (segment as u32) * 16 + offset as u32
    }

    /// Picks the video mode: the last of the modes (in list order) that
    /// supports a linear framebuffer in graphics mode (attribute bits 0x90).
    pub fn get_best_mode(&self, modes: &Vec<(u16, VBEModeInfo)>) -> (r: Option<VideoInfo>)
        ensures
            r == best_mode(modes@),
    {
        let mut best: Option<VideoInfo> = None;
        let mut i: usize = 0;
        while i < modes.len()
            invariant
                i <= modes@.len(),
                best == best_mode(modes@.take(i as int)),
            decreases modes@.len() - i,
        {
            let (id, mode) = modes[i];
            if mode.attributes & 0x90 == 0x90 {
                best = Some(mode_video_info(id, &mode));
            }
            proof {
                assert(modes@.take(i + 1).drop_last() =~= modes@.take(i as int));
            }
            i = i + 1;
        }
        proof {
            assert(modes@.take(i as int) =~= modes@);
        }
        best
    }
}

/// The mode number at a list entry: the list ends at 0xFFFF.
pub fn mode_number(entry: u16) -> (r: Option<u16>)
    ensures
        r == if entry == 0xFFFF {
            None
        } else {
            Some(entry)
        },
{
    if entry == 0xFFFF {
        None
    } else {
        Some(entry)
    }
}

/// What video mode `id` described by `m` gives.
pub open spec fn video_info_of(id: u16, m: VBEModeInfo) -> VideoInfo {
    VideoInfo {
        mode: id,
        width: m.width,
        height: m.height,
        framebuffer: m.framebuffer,
        bytes_per_pixel: (m.bpp / 8) as u16,
        bytes_per_line: m.pitch,
    }
}

fn mode_video_info(id: u16, m: &VBEModeInfo) -> (r: VideoInfo)
    ensures
        r == video_info_of(id, *m),
{
    VideoInfo {
        mode: id,
        width: m.width,
        height: m.height,
        framebuffer: m.framebuffer,
        bytes_per_pixel: (m.bpp / 8) as u16,
        bytes_per_line: m.pitch,
    }
}

/// The last usable mode of `modes` (attribute bits 0x90 set), if any.
pub open spec fn best_mode(modes: Seq<(u16, VBEModeInfo)>) -> Option<VideoInfo>
    decreases modes.len(),
{
    if modes.len() == 0 {
        None
    } else if modes.last().1.attributes & 0x90 == 0x90 {
        Some(video_info_of(modes.last().0, modes.last().1))
    } else {
        best_mode(modes.drop_last())
    }
}

/// The mode picked from a list: none when no mode of the list supports a
/// linear framebuffer in graphics mode (attribute bits 0x90); otherwise the
/// mode at the greatest index that does, reported with its number, size,
/// framebuffer, bytes per line and bytes per pixel.
pub proof fn lemma_best_mode(modes: Seq<(u16, VBEModeInfo)>)
    ensures
        best_mode(modes) is None <==> forall|i: int|
            0 <= i < modes.len() ==> (#[trigger] modes[i]).1.attributes & 0x90 != 0x90,
        best_mode(modes) is Some ==> exists|i: int|
            {
                &&& 0 <= i < modes.len()
                &&& (#[trigger] modes[i]).1.attributes & 0x90 == 0x90
                &&& forall|j: int| i < j < modes.len() ==> (#[trigger] modes[j]).1.attributes & 0x90 != 0x90
                &&& best_mode(modes)->Some_0.mode == modes[i].0
                &&& best_mode(modes)->Some_0.width == modes[i].1.width
                &&& best_mode(modes)->Some_0.height == modes[i].1.height
                &&& best_mode(modes)->Some_0.framebuffer == modes[i].1.framebuffer
                &&& best_mode(modes)->Some_0.bytes_per_line == modes[i].1.pitch
                &&& best_mode(modes)->Some_0.bytes_per_pixel == modes[i].1.bpp / 8
            },
    decreases modes.len(),
{
    if modes.len() > 0 {
        let n = modes.len() - 1;
        let rest = modes.drop_last();
        lemma_best_mode(rest);
        if modes[n].1.attributes & 0x90 == 0x90 {
            assert(modes[n] == modes.last());
        } else {
            assert(modes[n] == modes.last());
            assert forall|i: int| 0 <= i < n implies #[trigger] modes[i] == rest[i] by {}
            if best_mode(rest) is Some {
                let i = choose|i: int|
                    {
                        &&& 0 <= i < rest.len()
                        &&& (#[trigger] rest[i]).1.attributes & 0x90 == 0x90
                        &&& forall|j: int| i < j < rest.len() ==> (#[trigger] rest[j]).1.attributes & 0x90 != 0x90
                        &&& best_mode(rest)->Some_0.mode == rest[i].0
                        &&& best_mode(rest)->Some_0.width == rest[i].1.width
                        &&& best_mode(rest)->Some_0.height == rest[i].1.height
                        &&& best_mode(rest)->Some_0.framebuffer == rest[i].1.framebuffer
                        &&& best_mode(rest)->Some_0.bytes_per_line == rest[i].1.pitch
                        &&& best_mode(rest)->Some_0.bytes_per_pixel == rest[i].1.bpp / 8
                    };
                assert(modes[i] == rest[i]);
                assert forall|j: int| i < j < modes.len() implies (#[trigger] modes[j]).1.attributes & 0x90 != 0x90 by {
                    if j < n {
                        assert(modes[j] == rest[j]);
                    }
                }
            } else {
                assert forall|i: int| 0 <= i < modes.len() implies (#[trigger] modes[i]).1.attributes & 0x90 != 0x90 by {
                    if i < n {
                        assert(modes[i] == rest[i]);
                    }
                }
            }
        }
    }
}

impl VBEModeInfo {
    /// Reads a mode information block.
    pub fn parse(block: &[u8]) -> (r: VBEModeInfo)
        requires
            block@.len() >= 44,
        ensures
            r.attributes == le16(block@, 0),
            r.pitch == le16(block@, 16),
            r.width == le16(block@, 18),
            r.height == le16(block@, 20),
            r.bpp == block@[25],
            r.memory_model == block@[27],
            r.framebuffer == le32(block@, 40),
    {
        VBEModeInfo {
            attributes: read_u16(block, 0),
            pitch: read_u16(block, 16),
            width: read_u16(block, 18),
            height: read_u16(block, 20),
            bpp: block[25],
            memory_model: block[27],
            framebuffer: read_u32(block, 40),
        }
    }
}

} // verus!
