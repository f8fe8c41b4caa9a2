//! The imported asset, and the header faults on which the C3D parser must
//! not be called.
use vstd::prelude::*;

use c3dio::{C3d, C3dParseError};

verus! {

#[verifier::external_type_specification]
#[verifier::external_body]
pub struct ExC3d(C3d);

#[verifier::external_type_specification]
#[verifier::external_body]
pub struct ExC3dParseError(C3dParseError);

#[verifier::external_type_specification]
#[verifier::external_body]
pub struct ExIoError(std::io::Error);

/// A 16-bit word of a C3D file at byte `i`: big-endian in files written by
/// an SGI/MIPS processor, little-endian otherwise.
pub open spec fn word_at(b: Seq<u8>, i: int, big_endian: bool) -> int {
    if big_endian {
        b[i] * 256 + b[i + 1]
    } else {
        b[i] + b[i + 1] * 256
    }
}

/// A header the parser cannot read: the parameter section starts at block 0,
/// the data section at block 0 or 1, or the first and last frame numbers do
/// not span a range of at most 65535 frames.
#[derive(Debug, PartialEq, Eq, Structural, Clone, Copy)]
pub enum HeaderFault {
    ParameterStart,
    DataStart,
    FrameRange,
}

/// The header fault of a buffer, as the parser meets the header: it needs a
/// whole 512-byte header block, the parameter block that the first byte
/// points to, a processor tag in byte 3 of that block, and the data section
/// that bytes 16-17 point to, before it reads the frame numbers in bytes 6-9.
pub open spec fn header_fault(b: Seq<u8>) -> Option<HeaderFault> {
    if b.len() < 512 {
        None
    } else if b[0] == 0 {
        Some(HeaderFault::ParameterStart)
    } else if b.len() < 512 * b[0] {
        None
    } else {
        let tag = b[512 * (b[0] - 1) + 3];
        if !(tag == 0x54 || tag == 0x55 || tag == 0x56) {
            None
        } else {
            let big_endian = tag == 0x56;
            let data_start = word_at(b, 16, big_endian);
            if b.len() < 512 * data_start {
                None
            } else if data_start <= 1 {
                Some(HeaderFault::DataStart)
            } else {
                let first = word_at(b, 6, big_endian);
                let last = word_at(b, 8, big_endian);
                if last < first || last - first >= 0xffff {
                    Some(HeaderFault::FrameRange)
                } else {
                    None
                }
            }
        }
    }
}

fn word(bytes: &[u8], i: usize, big_endian: bool) -> (r: usize)
    requires
        i + 1 < bytes@.len(),
    ensures
        r == word_at(bytes@, i as int, big_endian),
{
    if big_endian {
        bytes[i] as usize * 256 + bytes[i + 1] as usize
    } else {
        bytes[i] as usize + bytes[i + 1] as usize * 256
    }
}

/// Finds the header fault of a buffer, if it has one.
pub fn check_header(bytes: &[u8]) -> (r: Option<HeaderFault>)
    ensures
        r == header_fault(bytes@),
{
    let len = bytes.len();
    if len < 512 {
        return None;
    }
    let first_block = bytes[0] as usize;
    if first_block == 0 {
        return Some(HeaderFault::ParameterStart);
    }
    if len < 512 * first_block {
        return None;
    }
    let tag = bytes[512 * (first_block - 1) + 3];
    if !(tag == 0x54 || tag == 0x55 || tag == 0x56) {
        return None;
    }
    let big_endian = tag == 0x56;
    let data_start = word(bytes, 16, big_endian);
    if len < 512 * data_start {
        return None;
    }
    if data_start <= 1 {
        return Some(HeaderFault::DataStart);
    }
    let first = word(bytes, 6, big_endian);
    let last = word(bytes, 8, big_endian);
    if last < first || last - first >= 0xffff {
        Some(HeaderFault::FrameRange)
    } else {
        None
    }
}

/// The number of marker labels of a parsed file.
pub uninterp spec fn c3d_label_count(c: C3d) -> nat;

/// The number of rows (frames) of the marker table of a parsed file.
pub uninterp spec fn c3d_frame_rows(c: C3d) -> nat;

/// Relies on the field `c3dio::Points::labels` of a parsed file: one label
/// per marker.
#[verifier::external_body]
fn label_count(c3d: &C3d) -> (r: usize)
    ensures
        r == c3d_label_count(*c3d),
{
    c3d.points.labels.len()
}

/// Relies on `grid::Grid::rows` of the marker table of a parsed file: one row
/// per frame.
#[verifier::external_body]
fn frame_rows(c3d: &C3d) -> (r: usize)
    ensures
        r == c3d_frame_rows(*c3d),
{
    c3d.points.rows()
}

/// A parsed C3D file, together with the dimensions of its marker table that
/// the playback logic reads: `marker_count` labelled markers and
/// `frame_count` frames, each frame holding one position per marker.
#[derive(Debug)]
pub struct C3dAsset {
    c3d: C3d,
    marker_count: usize,
    frame_count: usize,
}

impl C3dAsset {
    /// The recorded dimensions are those of the record held.
    #[verifier::type_invariant]
    pub closed spec fn wf(&self) -> bool {
        &&& self.marker_count == c3d_label_count(self.c3d)
        &&& self.frame_count == c3d_frame_rows(self.c3d)
    }

    pub closed spec fn parsed(&self) -> C3d {
        self.c3d
    }

    /// The parsed record.
    pub fn c3d(&self) -> (r: &C3d)
        ensures
            *r == self.parsed(),
    {
        &self.c3d
    }

    pub closed spec fn markers(&self) -> nat {
        self.marker_count as nat
    }

    pub closed spec fn frames(&self) -> nat {
        self.frame_count as nat
    }

    /// Wraps a parsed file, reading the dimensions of its marker table once.
    pub fn from_c3d(c3d: C3d) -> (r: C3dAsset)
        ensures
            r.parsed() == c3d,
            r.markers() == c3d_label_count(c3d),
            r.frames() == c3d_frame_rows(c3d),
    {
        let marker_count = label_count(&c3d);
        let frame_count = frame_rows(&c3d);
        C3dAsset { c3d, marker_count, frame_count }
    }

    /// The number of labelled markers.
    pub fn marker_count(&self) -> (r: usize)
        ensures
            r == self.markers(),
            r == c3d_label_count(self.parsed()),
    {
        proof {
            use_type_invariant(self);
        }
        self.marker_count
    }

    /// The number of frames.
    pub fn frame_count(&self) -> (r: usize)
        ensures
            r == self.frames(),
            r == c3d_frame_rows(self.parsed()),
    {
        proof {
            use_type_invariant(self);
        }
        self.frame_count
    }
}

/// Wraps the parser's outcome: a parsed record becomes an asset holding it
/// unchanged, and a parser error is passed on unchanged.
pub fn load_c3d(parsed: Result<C3d, C3dParseError>) -> (r: Result<C3dAsset, C3dParseError>)
    ensures
        parsed is Ok ==> r is Ok && r->Ok_0.parsed() == parsed->Ok_0,
        parsed is Err ==> r is Err && r->Err_0 == parsed->Err_0,
{
    match parsed {
        Ok(c3d) => Ok(C3dAsset::from_c3d(c3d)),
        Err(err) => Err(err),
    }
}

} // verus!
