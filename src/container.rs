//! The recording's container: a 16-byte header holding the build number at
//! bytes 12..16, then a gzip stream whose content is the record stream.

use vstd::prelude::*;

use crate::framing::{next_record, read_record, FrameError};

verus! {

/// Where the build number sits in the header.
pub const BUILD_NUMBER_OFFSET: usize = 12;

/// Where the compressed payload starts.
pub const PAYLOAD_OFFSET: usize = 16;

/// `std::io::Error`, as the gzip decoder reports a failure; carried, never inspected.
#[verifier::external_type_specification]
#[verifier::external_body]
pub struct ExIoError(std::io::Error);

/// Why a recording could not be opened.
#[derive(Debug, Clone, Copy, PartialEq, Eq, Structural)]
pub enum ContainerError {
    /// The file is shorter than its header.
    HeaderTooShort,
    /// The payload is not a readable gzip stream.
    Decompress,
}

/// The content of the gzip stream `data`, as the decoder produces it.
pub uninterp spec fn gunzipped(data: Seq<u8>) -> Seq<u8>;

/// Whether the decoder reads the gzip stream `data` to its end without error.
pub uninterp spec fn gunzip_ok(data: Seq<u8>) -> bool;

/// Relies on flate2::read::GzDecoder read to its end: whether it succeeds, and
/// the decompressed bytes it gives, depend on the stream's bytes alone.
#[verifier::external_body]
fn gunzip(data: &Vec<u8>) -> (r: Result<Vec<u8>, std::io::Error>)
    ensures
        r is Ok <==> gunzip_ok(data@),
        r matches Ok(v) ==> v@ == gunzipped(data@),
{
    let mut out = Vec::new();
    std::io::Read::read_to_end(&mut flate2::read::GzDecoder::new(data.as_slice()), &mut out).map(|_| out)
}

/// The signed 32-bit number whose little-endian bytes are `b0..b3`.
pub open spec fn le_i32(b0: u8, b1: u8, b2: u8, b3: u8) -> int {
    let u = b0 + 256 * b1 + 65536 * b2 + 16777216 * b3;
    if u >= 0x8000_0000 {
        u - 0x1_0000_0000
    } else {
        u
    }
}

/// The build number a header holds, when the file is long enough to hold one.
pub open spec fn build_number_of(raw: Seq<u8>) -> Option<int> {
    if raw.len() < PAYLOAD_OFFSET {
        None
    } else {
        Some(le_i32(raw[12], raw[13], raw[14], raw[15]))
    }
}

/// Reads the build number from the first bytes of a recording.
pub fn header_build_number(raw: &Vec<u8>) -> (r: Option<i32>)
    ensures
        match build_number_of(raw@) {
            Some(n) => r matches Some(x) && x as int == n,
            None => r is None,
        },
{
    if raw.len() < PAYLOAD_OFFSET {
        return None;
    }
    let u: u32 = raw[12] as u32 + 256 * (raw[13] as u32) + 65536 * (raw[14] as u32) + 16777216 * (raw[15] as u32);
    if u >= 0x8000_0000 {
        Some(((u - 0x8000_0000) as i32) - 0x7fff_ffff - 1)
    } else {
        Some(u as i32)
    }
}

/// A recording opened for reading: its build number and its decompressed
/// record stream, read front to back.
pub struct ReplayFile {
    pub build_number: i32,
    pub payload: Vec<u8>,
    /// How far into the payload reading has come.
    pub pos: usize,
}

impl ReplayFile {
    pub open spec fn position(&self) -> nat {
        self.pos as nat
    }

    /// The reading position lies within the payload.
    pub open spec fn wf(&self) -> bool {
        self.pos <= self.payload@.len()
    }

    /// The stream not yet read.
    pub open spec fn remaining(&self) -> Seq<u8> {
        self.payload@.subrange(self.position() as int, self.payload@.len() as int)
    }

    /// Opens an already decompressed record stream, with build number 0.
    pub fn open_unzipped(payload: Vec<u8>) -> (r: ReplayFile)
        ensures
            r.wf(),
            r.build_number == 0,
            r.payload@ == payload@,
            r.position() == 0,
    {
        ReplayFile { build_number: 0, payload, pos: 0 }
    }

    /// Opens a whole recording file: reads the build number from the header
    /// and decompresses the payload after it.
    pub fn open(raw: &Vec<u8>) -> (r: Result<ReplayFile, ContainerError>)
        ensures
            raw@.len() < PAYLOAD_OFFSET <==> r == Err::<ReplayFile, ContainerError>(ContainerError::HeaderTooShort),
            r matches Ok(f) ==> {
                &&& f.wf()
                &&& Some(f.build_number as int) == build_number_of(raw@)
                &&& f.payload@ == gunzipped(raw@.subrange(PAYLOAD_OFFSET as int, raw@.len() as int))
                &&& f.position() == 0
            },
            raw@.len() >= PAYLOAD_OFFSET ==> (r is Ok <==> gunzip_ok(
                raw@.subrange(PAYLOAD_OFFSET as int, raw@.len() as int),
            )),
            raw@.len() >= PAYLOAD_OFFSET && r is Err ==> r == Err::<ReplayFile, ContainerError>(ContainerError::Decompress),
    {
        let build_number = match header_build_number(raw) {
            Some(n) => n,
            None => return Err(ContainerError::HeaderTooShort),
        };
        let mut body: Vec<u8> = Vec::new();
        let mut i: usize = PAYLOAD_OFFSET;
        while i < raw.len()
            invariant
                PAYLOAD_OFFSET <= i <= raw@.len(),
                body@ == raw@.subrange(PAYLOAD_OFFSET as int, i as int),
            decreases raw@.len() - i,
        {
            body.push(raw[i]);
            i += 1;
            assert(body@ =~= raw@.subrange(PAYLOAD_OFFSET as int, i as int));
        }
        match gunzip(&body) {
            Ok(payload) => Ok(ReplayFile { build_number, payload, pos: 0 }),
            Err(_) => Err(ContainerError::Decompress),
        }
    }

    /// The next record of the stream, `None` at its clean end, or the framing fault met.
    pub fn next(&mut self) -> (r: Result<Option<Vec<u8>>, FrameError>)
        requires
            old(self).wf(),
        ensures
            final(self).wf(),
            final(self).build_number == old(self).build_number,
            final(self).payload@ == old(self).payload@,
            match next_record(old(self).remaining()) {
                Ok(None) => r matches Ok(None) && final(self).position() == old(self).position(),
                Ok(Some((rec, used))) => r matches Ok(Some(v)) && v@ == rec
                    && final(self).position() == old(self).position() + used,
                Err(e) => r matches Err(x) && x == e && final(self).position() == old(self).position(),
            },
    {
        let len = self.payload.len();
        match read_record(&self.payload, self.pos) {
            Ok(None) => Ok(None),
            Ok(Some((rec, used))) => {
                assert(self.pos + used <= len);
                self.pos = self.pos + used;
                Ok(Some(rec))
            },
            Err(e) => Err(e),
        }
    }
}

} // verus!
