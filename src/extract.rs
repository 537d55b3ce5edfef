//! Splits the custom sections that carry program units into their
//! length-prefixed chunks, checking each chunk's schema version.
use crate::records::{Error, ErrorKind};
use vstd::prelude::*;
use vstd::utf8::{decode_utf8, valid_utf8};

verus! {

/// The name of the custom sections that hold program units.
pub const SECTION_NAME: &'static str = "__wasm_bindgen_unstable";

/// The little-endian value of four bytes.
pub open spec fn le_u32(b: Seq<u8>, pos: int) -> int {
    b[pos] + 256 * b[pos + 1] + 65536 * b[pos + 2] + 16777216 * b[pos + 3]
}

/// The chunk that starts at `pos`: `None` at the end of the data, else the
/// bounds of the bytes after its four-byte length.
pub open spec fn chunk_at(data: Seq<u8>, pos: int) -> Result<Option<(int, int)>, ErrorKind> {
    if pos == data.len() {
        Ok(None)
    } else if pos + 4 > data.len() || pos + 4 + le_u32(data, pos) > data.len() {
        Err(ErrorKind::MalformedSection)
    } else {
        Ok(Some((pos + 4, pos + 4 + le_u32(data, pos))))
    }
}

/// Reads the length-prefixed chunk at `pos`.
fn get_remaining(data: &[u8], pos: usize) -> (r: Result<Option<(usize, usize)>, Error>)
    requires
        pos <= data@.len(),
    ensures
        match chunk_at(data@, pos as int) {
            Ok(None) => r matches Ok(None),
            Ok(Some((a, b))) => r matches Ok(Some((x, y))) && x == a && y == b,
            Err(k) => r matches Err(e) && e.kind() == k,
        },
{
    let len = data.len();
    if pos == len {
        return Ok(None);
    }
    if len - pos < 4 {
        return Err(Error::MalformedSection);
    }
    let n: u64 = data[pos] as u64 + 256 * (data[pos + 1] as u64) + 65536 * (data[pos + 2] as u64)
        + 16777216 * (data[pos + 3] as u64);
    if n > (len - pos - 4) as u64 {
        return Err(Error::MalformedSection);
    }
    let start = pos + 4;
    let end = start + n as usize;
    Ok(Some((start, end)))
}

/// The first index at or after `from` where `needle` occurs in `hay`.
pub open spec fn find_from(hay: Seq<u8>, needle: Seq<u8>, from: int) -> Option<int>
    decreases hay.len() - from,
{
    if from < 0 || from >= hay.len() || from + needle.len() > hay.len() {
        None
    } else if hay.subrange(from, from + needle.len()) == needle {
        Some(from)
    } else {
        find_from(hay, needle, from + 1)
    }
}

/// The bytes of `"schema_version":"`.
pub open spec fn schema_key() -> Seq<u8> {
    seq![34u8, 115, 99, 104, 101, 109, 97, 95, 118, 101, 114, 115, 105, 111, 110, 34, 58, 34]
}

/// The bytes of `"version":"`.
pub open spec fn version_key() -> Seq<u8> {
    seq![34u8, 118, 101, 114, 115, 105, 111, 110, 34, 58, 34]
}

/// The bytes of the schema version this library reads.
pub open spec fn own_schema() -> Seq<u8> {
    seq![48u8, 46, 50, 46, 49, 50, 56]
}

/// The quoted value that follows `key` in `data`, as bounds.
pub open spec fn quoted_after(data: Seq<u8>, key: Seq<u8>) -> Option<(int, int)> {
    match find_from(data, key, 0) {
        None => None,
        Some(i) => match find_from(data, seq![34u8], i + key.len()) {
            None => None,
            Some(j) => Some((i + key.len(), j)),
        },
    }
}

/// The outcome of checking a chunk's version envelope against the schema
/// version `ours`: `None` when it matches, else the bytes of the version of
/// the tool that wrote it.
pub open spec fn schema_check(data: Seq<u8>, ours: Seq<u8>) -> Result<Option<Seq<u8>>, ErrorKind> {
    if !valid_utf8(data) || data.len() == 0 || data[0] != 123 || data.last() != 125 {
        Err(ErrorKind::MalformedSection)
    } else {
        match quoted_after(data, schema_key()) {
            None => Err(ErrorKind::MalformedSection),
            Some((a, b)) => if data.subrange(a, b) == ours {
                Ok(None)
            } else {
                match quoted_after(data, version_key()) {
                    None => Err(ErrorKind::MalformedSection),
                    Some((c, d)) => Ok(Some(data.subrange(c, d))),
                }
            },
        }
    }
}

proof fn lemma_find_from_bounds(hay: Seq<u8>, needle: Seq<u8>, from: int)
    ensures
        find_from(hay, needle, from) matches Some(i) ==> from <= i && i + needle.len() <= hay.len(),
    decreases hay.len() - from,
{
    if !(from < 0 || from >= hay.len() || from + needle.len() > hay.len()) {
        lemma_find_from_bounds(hay, needle, from + 1);
    }
}

fn find_from_exec(hay: &[u8], needle: &Vec<u8>, from: usize) -> (r: Option<usize>)
    ensures
        r matches Some(j) ==> from <= j && j + needle@.len() <= hay@.len(),
        match r {
            Some(j) => find_from(hay@, needle@, from as int) == Some(j as int),
            None => find_from(hay@, needle@, from as int) is None,
        },
    decreases hay@.len() - from,
{
    let hay_len = hay.len();
    proof {
        lemma_find_from_bounds(hay@, needle@, from as int);
    }
    if from >= hay_len || needle.len() > hay_len - from {
        return None;
    }
    let mut k: usize = 0;
    while k < needle.len()
        invariant
            k <= needle@.len(),
            from + needle@.len() <= hay@.len(),
            hay@.len() == hay_len,
            forall|m: int| 0 <= m < k ==> hay@[from + m] == needle@[m],
        decreases needle@.len() - k,
    {
        if hay[from + k] != needle[k] {
            proof {
                assert(hay@.subrange(from as int, from + needle@.len())[k as int] != needle@[k as int]);
            }
            return find_from_exec(hay, needle, from + 1);
        }
        k = k + 1;
    }
    proof {
        assert(hay@.subrange(from as int, from + needle@.len()) =~= needle@);
    }
    Some(from)
}

/// Relies on `std::str::from_utf8`: succeeds exactly on valid UTF-8, with
/// the characters the bytes encode.
#[verifier::external_body]
fn utf8_string(b: &[u8]) -> (r: Option<String>)
    ensures
        r is Some <==> valid_utf8(b@),
        r matches Some(s) ==> s@ == decode_utf8(b@),
{
    match std::str::from_utf8(b) {
        Ok(s) => Some(s.to_string()),
        Err(_) => None,
    }
}

/// Relies on `wasm_bindgen_shared::SCHEMA_VERSION`, whose text is `0.2.128`.
#[verifier::external_body]
fn schema_version_bytes() -> (r: Vec<u8>)
    ensures
        r@ == own_schema(),
{
    wasm_bindgen_shared::SCHEMA_VERSION.as_bytes().to_vec()
}

/// Relies on `wasm_bindgen_shared::version`: the version of this tool, for
/// the mismatch diagnostic.
#[verifier::external_body]
fn tool_version() -> (r: String) {
    wasm_bindgen_shared::version()
}

fn copy_range(data: &[u8], a: usize, b: usize) -> (r: Vec<u8>)
    requires
        a <= b <= data@.len(),
    ensures
        r@ == data@.subrange(a as int, b as int),
{
    let mut r: Vec<u8> = Vec::new();
    let mut i = a;
    while i < b
        invariant
            a <= i <= b,
            b <= data@.len(),
            r@ == data@.subrange(a as int, i as int),
        decreases b - i,
    {
        r.push(data[i]);
        proof {
            assert(r@ =~= data@.subrange(a as int, i + 1));
        }
        i = i + 1;
    }
    r
}

fn quoted_after_exec(data: &[u8], key: &Vec<u8>) -> (r: Option<(usize, usize)>)
    ensures
        r matches Some((a, b)) ==> a <= b <= data@.len(),
        match r {
            Some((a, b)) => quoted_after(data@, key@) == Some((a as int, b as int)),
            None => quoted_after(data@, key@) is None,
        },
{
    let i = match find_from_exec(data, key, 0) {
        Some(i) => i,
        None => return None,
    };
    let data_len = data.len();
    assert(i + key@.len() <= data_len);
    let quote: Vec<u8> = vec![34u8];
    assert(quote@ =~= seq![34u8]);
    let start = i + key.len();
    match find_from_exec(data, &quote, start) {
        Some(j) => Some((start, j)),
        None => None,
    }
}

/// Checks a chunk's version envelope against the schema version `ours`:
/// `None` when it matches, else the bytes of the version of the tool that
/// wrote the chunk.
pub fn check_schema(data: &[u8], ours: &Vec<u8>) -> (r: Result<Option<Vec<u8>>, Error>)
    ensures
        match schema_check(data@, ours@) {
            Ok(None) => r matches Ok(None),
            Ok(Some(v)) => r matches Ok(Some(w)) && w@ == v,
            Err(k) => r matches Err(e) && e.kind() == k,
        },
{
    if utf8_string(data).is_none() {
        return Err(Error::MalformedSection);
    }
    let len = data.len();
    if len == 0 || data[0] != 123 || data[len - 1] != 125 {
        return Err(Error::MalformedSection);
    }
    let schema_needle: Vec<u8> = vec![34u8, 115, 99, 104, 101, 109, 97, 95, 118, 101, 114, 115, 105, 111, 110, 34, 58, 34];
    assert(schema_needle@ =~= schema_key());
    let (a, b) = match quoted_after_exec(data, &schema_needle) {
        Some(p) => p,
        None => return Err(Error::MalformedSection),
    };
    let theirs = copy_range(data, a, b);
    let mut same = theirs.len() == ours.len();
    let mut k: usize = 0;
    while same && k < ours.len()
        invariant
            same ==> theirs@.len() == ours@.len(),
            k <= ours@.len(),
            same ==> forall|m: int| 0 <= m < k ==> theirs@[m] == ours@[m],
            !same ==> theirs@ != ours@,
        decreases ours@.len() - k,
    {
        if theirs[k] != ours[k] {
            same = false;
        }
        k = k + 1;
    }
    if same {
        assert(theirs@ =~= ours@);
        return Ok(None);
    }
    let version_needle: Vec<u8> = vec![34u8, 118, 101, 114, 115, 105, 111, 110, 34, 58, 34];
    assert(version_needle@ =~= version_key());
    match quoted_after_exec(data, &version_needle) {
        Some((c, d)) => Ok(Some(copy_range(data, c, d))),
        None => Err(Error::MalformedSection),
    }
}

/// Checks a chunk's version envelope against the schema version of this
/// library; on a mismatch, yields the version of the tool that wrote it.
pub fn verify_schema_matches(data: &[u8]) -> (r: Result<Option<Vec<u8>>, Error>)
    ensures
        match schema_check(data@, own_schema()) {
            Ok(None) => r matches Ok(None),
            Ok(Some(v)) => r matches Ok(Some(w)) && w@ == v,
            Err(k) => r matches Err(e) && e.kind() == k,
        },
{
    let ours = schema_version_bytes();
    check_schema(data, &ours)
}

/// The program units of one section, after `pos`: each chunk is a version
/// envelope followed by a unit; the envelopes must match `ours`.
pub open spec fn section_units(data: Seq<u8>, pos: int, ours: Seq<u8>) -> Result<Seq<Seq<u8>>, ErrorKind>
    decreases data.len() - pos,
{
    if pos < 0 || pos > data.len() {
        Err(ErrorKind::MalformedSection)
    } else {
        match chunk_at(data, pos) {
            Err(k) => Err(k),
            Ok(None) => Ok(Seq::empty()),
            Ok(Some((a, b))) => match schema_check(data.subrange(a, b), ours) {
                Err(k) => Err(k),
                Ok(Some(_)) => Err(ErrorKind::VersionMismatch),
                Ok(None) => match chunk_at(data, b) {
                    Err(k) => Err(k),
                    Ok(None) => Err(ErrorKind::MalformedSection),
                    Ok(Some((c, d))) => match section_units(data, d, ours) {
                        Err(k) => Err(k),
                        Ok(rest) => Ok(seq![data.subrange(c, d)] + rest),
                    },
                },
            },
        }
    }
}

/// The program units of all sections, in order.
pub open spec fn all_units(sections: Seq<Seq<u8>>, ours: Seq<u8>) -> Result<Seq<Seq<u8>>, ErrorKind>
    decreases sections.len(),
{
    if sections.len() == 0 {
        Ok(Seq::empty())
    } else {
        match all_units(sections.drop_last(), ours) {
            Err(k) => Err(k),
            Ok(front) => match section_units(sections.last(), 0, ours) {
                Err(k) => Err(k),
                Ok(back) => Ok(front + back),
            },
        }
    }
}

/// The views of a list of byte buffers.
pub open spec fn buffers_view(v: Seq<Vec<u8>>) -> Seq<Seq<u8>> {
    v.map_values(|b: Vec<u8>| b@)
}

/// Relies on `String::from_utf8_lossy`: valid UTF-8 is decoded unchanged.
#[verifier::external_body]
fn utf8_lossy(b: &[u8]) -> (r: String)
    ensures
        valid_utf8(b@) ==> r@ == decode_utf8(b@),
{
    String::from_utf8_lossy(b).into_owned()
}

/// Appends the program units of one section to `out`.
fn section_programs(data: &[u8], ours: &Vec<u8>, out: &mut Vec<Vec<u8>>) -> (r: Result<(), Error>)
    ensures
        match section_units(data@, 0, ours@) {
            Ok(units) => r is Ok && buffers_view(final(out)@) == buffers_view(old(out)@) + units,
            Err(k) => r matches Err(e) && e.kind() == k,
        },
{
    let ghost all = section_units(data@, 0, ours@);
    let ghost start = buffers_view(out@);
    let mut pos: usize = 0;
    loop
        invariant
            pos <= data@.len(),
            all == section_units(data@, 0, ours@),
            match section_units(data@, pos as int, ours@) {
                Ok(rest) => all == Ok::<Seq<Seq<u8>>, ErrorKind>(buffers_view(out@).subrange(start.len() as int, buffers_view(out@).len() as int) + rest),
                Err(k) => all == Err::<Seq<Seq<u8>>, ErrorKind>(k),
            },
            buffers_view(out@).len() >= start.len(),
            buffers_view(out@).subrange(0, start.len() as int) == start,
            start == buffers_view(old(out)@),
        decreases data@.len() - pos,
    {
        let (a, b) = match get_remaining(data, pos) {
            Err(e) => return Err(e),
            Ok(None) => {
                proof {
                    let done = buffers_view(out@).subrange(start.len() as int, buffers_view(out@).len() as int);
                    assert(done + Seq::<Seq<u8>>::empty() =~= done);
                    assert(buffers_view(out@) =~= start + done);
                }
                return Ok(());
            },
            Ok(Some(p)) => p,
        };
        match verify_schema_check(data, a, b, ours) {
            Err(e) => return Err(e),
            Ok(()) => {},
        }
        let (c, d) = match get_remaining(data, b) {
            Err(e) => return Err(e),
            Ok(None) => return Err(Error::MalformedSection),
            Ok(Some(p)) => p,
        };
        let unit = copy_range(data, c, d);
        let ghost before = out@;
        out.push(unit);
        proof {
            let done = buffers_view(before).subrange(start.len() as int, buffers_view(before).len() as int);
            assert(buffers_view(out@) =~= buffers_view(before).push(data@.subrange(c as int, d as int)));
            assert(buffers_view(out@).subrange(start.len() as int, buffers_view(out@).len() as int)
                =~= done.push(data@.subrange(c as int, d as int)));
            assert(buffers_view(out@).subrange(0, start.len() as int) =~= buffers_view(before).subrange(0, start.len() as int));
            match section_units(data@, d as int, ours@) {
                Ok(rest) => {
                    assert(done + (seq![data@.subrange(c as int, d as int)] + rest)
                        =~= done.push(data@.subrange(c as int, d as int)) + rest);
                },
                Err(_) => {},
            }
        }
        pos = d;
    }
}

/// Checks the version envelope in `data[a..b]`.
fn verify_schema_check(data: &[u8], a: usize, b: usize, ours: &Vec<u8>) -> (r: Result<(), Error>)
    requires
        a <= b <= data@.len(),
    ensures
        match schema_check(data@.subrange(a as int, b as int), ours@) {
            Ok(None) => r is Ok,
            Ok(Some(v)) => r matches Err(Error::VersionMismatch { theirs, .. })
                && (valid_utf8(v) ==> theirs@ == decode_utf8(v)),
            Err(k) => r matches Err(e) && e.kind() == k,
        },
{
    let envelope = copy_range(data, a, b);
    match check_schema(envelope.as_slice(), ours) {
        Ok(None) => Ok(()),
        Ok(Some(theirs)) => Err(Error::VersionMismatch { theirs: utf8_lossy(theirs.as_slice()), ours: tool_version() }),
        Err(e) => Err(e),
    }
}

/// Splits the payloads of the program sections, in order, into the encoded
/// program units they carry, checking every version envelope against the
/// schema version of this library.
pub fn extract_programs(sections: &Vec<Vec<u8>>) -> (r: Result<Vec<Vec<u8>>, Error>)
    ensures
        match all_units(buffers_view(sections@), own_schema()) {
            Ok(units) => r matches Ok(v) && buffers_view(v@) == units,
            Err(k) => r matches Err(e) && e.kind() == k,
        },
{
    let ours = schema_version_bytes();
    let mut out: Vec<Vec<u8>> = Vec::new();
    let mut i: usize = 0;
    proof {
        assert(buffers_view(sections@.subrange(0, 0)) =~= Seq::<Seq<u8>>::empty());
        assert(buffers_view(out@) =~= Seq::<Seq<u8>>::empty());
    }
    while i < sections.len()
        invariant
            i <= sections@.len(),
            ours@ == own_schema(),
            all_units(buffers_view(sections@.subrange(0, i as int)), own_schema()) == Ok::<Seq<Seq<u8>>, ErrorKind>(buffers_view(out@)),
        decreases sections@.len() - i,
    {
        proof {
            assert(buffers_view(sections@.subrange(0, i + 1)).drop_last() =~= buffers_view(sections@.subrange(0, i as int)));
            assert(buffers_view(sections@.subrange(0, i + 1)).last() == sections@[i as int]@);
        }
        match section_programs(sections[i].as_slice(), &ours, &mut out) {
            Ok(()) => {},
            Err(e) => {
                proof {
                    let p = buffers_view(sections@.subrange(0, i + 1));
                    assert(section_units(p.last(), 0, own_schema()) is Err);
                    assert(all_units(p, own_schema()) == Err::<Seq<Seq<u8>>, ErrorKind>(e.kind()));
                    assert(buffers_view(sections@).subrange(0, i + 1) =~= p);
                    lemma_all_units_err(buffers_view(sections@), own_schema(), i as int + 1);
                }
                return Err(e);
            },
        }
        i = i + 1;
    }
    proof {
        assert(buffers_view(sections@.subrange(0, sections@.len() as int)) =~= buffers_view(sections@));
    }
    Ok(out)
}

/// An error in a prefix of the sections is the error of all of them.
proof fn lemma_all_units_err(sections: Seq<Seq<u8>>, ours: Seq<u8>, n: int)
    requires
        0 < n <= sections.len(),
        all_units(sections.subrange(0, n), ours) is Err,
    ensures
        all_units(sections, ours) == all_units(sections.subrange(0, n), ours),
    decreases sections.len() - n,
{
    if n < sections.len() {
        assert(sections.subrange(0, n + 1).drop_last() =~= sections.subrange(0, n));
        lemma_all_units_err(sections, ours, n + 1);
    } else {
        assert(sections.subrange(0, n) =~= sections);
    }
}

} // verus!
