//! Fixed-capacity path buffer, decimal formatting and the name of the
//! temp file the bridge script is written to.

use vstd::prelude::*;
use vstd::string::StringSliceAdditionalSpecFns;
use crate::deno::error::DenoRuntimeError;
use crate::deno::{PATH_CAP, TEMP_NAME_CAP};
use crate::text::str_from_utf8;
use crate::decimal::{dec_digits, u32_digits};

verus! {

/// Writes the decimal digits of `n` at the start of `buf` and returns how
/// many; 0 (and `buf` untouched) when they do not fit.
pub fn write_u32_dec(buf: &mut Vec<u8>, n: u32) -> (r: usize)
    ensures
        final(buf)@.len() == old(buf)@.len(),
        dec_digits(n as nat).len() <= old(buf)@.len() ==> r == dec_digits(n as nat).len()
            && final(buf)@ == dec_digits(n as nat) + old(buf)@.skip(r as int),
        dec_digits(n as nat).len() > old(buf)@.len() ==> r == 0 && final(buf)@ == old(buf)@,
{
    let digits = u32_digits(n);
    if buf.len() < digits.len() {
        return 0;
    }
    let mut j: usize = 0;
    while j < digits.len()
        invariant
            j <= digits@.len(),
            digits@.len() <= buf@.len(),
            buf@.len() == old(buf)@.len(),
            buf@ == digits@.take(j as int) + old(buf)@.skip(j as int),
        decreases digits.len() - j,
    {
        buf.set(j, digits[j]);
        assert(buf@ =~= digits@.take(j + 1) + old(buf)@.skip(j + 1));
        j = j + 1;
    }
    assert(digits@.take(j as int) =~= digits@);
    digits.len()
}

/// A path of at most `PATH_CAP` bytes.
pub struct PathBuf64 {
    bytes: Vec<u8>,
}

impl PathBuf64 {
    pub closed spec fn view(&self) -> Seq<u8> {
        self.bytes@
    }

    pub closed spec fn wf(&self) -> bool {
        self.bytes@.len() <= PATH_CAP
    }

    pub fn empty() -> (r: PathBuf64)
        ensures
            r.wf(),
            r.view() == Seq::<u8>::empty(),
    {
        PathBuf64 { bytes: Vec::new() }
    }

    /// The path holding the bytes of `s`; too long is `ConfigPathTooLong`.
    pub fn from_str(s: &str) -> (r: Result<PathBuf64, DenoRuntimeError>)
        ensures
            match r {
                Ok(p) => p.wf() && p.view() == s.spec_bytes(),
                Err(e) => e == DenoRuntimeError::ConfigPathTooLong && s.spec_bytes().len()
                    > PATH_CAP,
            },
    {
        let src = s.as_bytes();
        if src.len() > PATH_CAP {
            return Err(DenoRuntimeError::ConfigPathTooLong);
        }
        let mut bytes: Vec<u8> = Vec::new();
        let mut k: usize = 0;
        while k < src.len()
            invariant
                k <= src@.len(),
                bytes@ == src@.take(k as int),
            decreases src.len() - k,
        {
            bytes.push(src[k]);
            assert(src@.take(k + 1) =~= src@.take(k as int).push(src@[k as int]));
            k = k + 1;
        }
        assert(src@.take(k as int) =~= src@);
        Ok(PathBuf64 { bytes })
    }

    pub fn as_bytes(&self) -> (r: &[u8])
        ensures
            r@ == self.view(),
    {
        self.bytes.as_slice()
    }

    pub fn len(&self) -> (r: usize)
        ensures
            r == self.view().len(),
    {
        self.bytes.len()
    }
}

pub open spec fn bridge_prefix() -> Seq<u8> {
    "viola-deno-bridge-".spec_bytes()
}

pub open spec fn bridge_suffix() -> Seq<u8> {
    ".ts".spec_bytes()
}

/// `dir` without one trailing `/`.
pub open spec fn without_trailing_slash(dir: Seq<u8>) -> Seq<u8> {
    if dir.len() > 0 && dir.last() == 0x2f {
        dir.drop_last()
    } else {
        dir
    }
}

/// The bridge script's temp path inside `dir` for process `pid`:
/// `<dir>/viola-deno-bridge-<pid>.ts`, with the capacity checks of the
/// fixed-size buffers.
pub open spec fn spec_bridge_path(dir: Seq<u8>, pid: u32) -> Result<Seq<u8>, DenoRuntimeError> {
    let name = bridge_prefix() + dec_digits(pid as nat) + bridge_suffix();
    if !vstd::utf8::valid_utf8(dir) {
        Err(DenoRuntimeError::TempDirNotUtf8)
    } else if dir.len() > PATH_CAP {
        Err(DenoRuntimeError::ConfigPathTooLong)
    } else if bridge_prefix().len() > TEMP_NAME_CAP {
        Err(DenoRuntimeError::TempNameOverflow)
    } else if bridge_prefix().len() + dec_digits(pid as nat).len() > TEMP_NAME_CAP {
        Err(DenoRuntimeError::TempNameOverflow)
    } else if name.len() > TEMP_NAME_CAP {
        Err(DenoRuntimeError::TempNameOverflow)
    } else if without_trailing_slash(dir).len() + 1 + name.len() > PATH_CAP {
        Err(DenoRuntimeError::ConfigPathTooLong)
    } else {
        Ok(without_trailing_slash(dir) + seq![0x2fu8] + name)
    }
}

fn append(v: &mut Vec<u8>, src: &[u8])
    ensures
        final(v)@ == old(v)@ + src@,
{
    let mut k: usize = 0;
    while k < src.len()
        invariant
            k <= src@.len(),
            v@ == old(v)@ + src@.take(k as int),
        decreases src.len() - k,
    {
        v.push(src[k]);
        assert(src@.take(k + 1) =~= src@.take(k as int).push(src@[k as int]));
        k = k + 1;
    }
    assert(src@.take(k as int) =~= src@);
}

/// The path the bridge script is written to, from the bytes of the temp
/// directory and the process id.
pub fn bridge_temp_path(dir: &[u8], pid: u32) -> (r: Result<PathBuf64, DenoRuntimeError>)
    ensures
        match r {
            Ok(p) => p.wf() && spec_bridge_path(dir@, pid) == Ok::<Seq<u8>, DenoRuntimeError>(
                p.view(),
            ),
            Err(e) => spec_bridge_path(dir@, pid) == Err::<Seq<u8>, DenoRuntimeError>(e),
        },
{
    let dir_str = match str_from_utf8(dir) {
        Some(s) => s,
        None => return Err(DenoRuntimeError::TempDirNotUtf8),
    };
    let path = match PathBuf64::from_str(dir_str) {
        Ok(p) => p,
        Err(e) => return Err(e),
    };
    let prefix = "viola-deno-bridge-".as_bytes();
    let suffix = ".ts".as_bytes();
    if prefix.len() > TEMP_NAME_CAP {
        return Err(DenoRuntimeError::TempNameOverflow);
    }
    let digits = u32_digits(pid);
    if digits.len() > TEMP_NAME_CAP - prefix.len() {
        return Err(DenoRuntimeError::TempNameOverflow);
    }
    let idx = prefix.len() + digits.len();
    if suffix.len() > TEMP_NAME_CAP - idx {
        return Err(DenoRuntimeError::TempNameOverflow);
    }
    let mut name: Vec<u8> = Vec::new();
    append(&mut name, prefix);
    append(&mut name, digits.as_slice());
    append(&mut name, suffix);
    assert(name@ =~= bridge_prefix() + dec_digits(pid as nat) + bridge_suffix());
    let mut bytes = path.bytes;
    if bytes.len() > 0 && bytes[bytes.len() - 1] == 0x2f {
        bytes.pop();
    }
    assert(bytes@ == without_trailing_slash(dir@));
    if bytes.len() + 1 + name.len() > PATH_CAP {
        return Err(DenoRuntimeError::ConfigPathTooLong);
    }
    let ghost trimmed = bytes@;
    bytes.push(0x2f);
    append(&mut bytes, name.as_slice());
    assert(bytes@ =~= trimmed + seq![0x2fu8] + name@);
    Ok(PathBuf64 { bytes })
}

} // verus!
