//! The Widevine PSSH (Protection System Specific Header) box of an initialization segment, found
//! among its first bytes.

use vstd::prelude::*;

verus! {

/// The four bytes "pssh".
pub open spec fn pssh_tag() -> Seq<u8> {
    seq![0x70u8, 0x73u8, 0x73u8, 0x68u8]
}

/// The system ID of Widevine, edef8ba9-79d6-4ace-a3c8-27dcd51d21ed.
pub open spec fn widevine_system_id() -> Seq<u8> {
    seq![
        0xedu8, 0xefu8, 0x8bu8, 0xa9u8, 0x79u8, 0xd6u8, 0x4au8, 0xceu8,
        0xa3u8, 0xc8u8, 0x27u8, 0xdcu8, 0xd5u8, 0x1du8, 0x21u8, 0xedu8,
    ]
}

/// "pssh" occurs at position `o` of `b`.
pub open spec fn pssh_at(b: Seq<u8>, o: int) -> bool {
    0 <= o && o + 4 <= b.len() && b.subrange(o, o + 4) == pssh_tag()
}

/// At position `o` of `b` stands the type of a complete Widevine PSSH box: "pssh", followed
/// (after the version and flags) by the Widevine system ID, in a box whose size (of which the
/// byte just before the type is taken as the whole) fits in `b`.
pub open spec fn widevine_box_at(b: Seq<u8>, o: int) -> bool {
    &&& pssh_at(b, o)
    &&& o >= 4
    &&& o + 24 <= b.len()
    &&& b.subrange(o + 8, o + 24) == widevine_system_id()
    &&& o - 4 + b[o - 1] <= b.len()
}

/// The box whose type stands at position `o`: from its size field, 4 bytes before the type,
/// for as many bytes as the byte before the type says.
pub open spec fn box_at(b: Seq<u8>, o: int) -> Seq<u8> {
    b.subrange(o - 4, o - 4 + b[o - 1])
}

fn widevine_id() -> (r: Vec<u8>)
    ensures
        r@ == widevine_system_id(),
{
    let r = vec![
        0xedu8, 0xefu8, 0x8bu8, 0xa9u8, 0x79u8, 0xd6u8, 0x4au8, 0xceu8,
        0xa3u8, 0xc8u8, 0x27u8, 0xdcu8, 0xd5u8, 0x1du8, 0x21u8, 0xedu8,
    ];
    assert(r@ =~= widevine_system_id());
    r
}

/// Whether the bytes of `b` from position `start` are those of `pat`.
fn bytes_at(b: &[u8], start: usize, pat: &[u8]) -> (r: bool)
    requires
        start + pat.len() <= b.len(),
    ensures
        r == (b@.subrange(start as int, start + pat.len()) == pat@),
{
    let mut i: usize = 0;
    while i < pat.len()
        invariant
            i <= pat.len(),
            start + pat.len() <= b.len(),
            forall|j: int| 0 <= j < i ==> b@[start + j] == pat@[j],
        decreases pat.len() - i,
    {
        if b[start + i] != pat[i] {
            assert(b@.subrange(start as int, start + pat.len())[i as int] != pat@[i as int]);
            return false;
        }
        i = i + 1;
    }
    assert(b@.subrange(start as int, start + pat.len()) =~= pat@);
    true
}

/// The first complete Widevine PSSH box among the bytes (see `widevine_box_at`), if any. The
/// bytes must not have "pssh" in their first four positions, where no box size can precede it.
pub fn widevine_pssh(b: &[u8]) -> (r: Option<Vec<u8>>)
    requires
        forall|o: int| 0 <= o < 4 ==> !pssh_at(b@, o),
    ensures
        r is None <==> forall|o: int| !widevine_box_at(b@, o),
        r matches Some(v) ==> exists|o: int|
            widevine_box_at(b@, o) && v@ == box_at(b@, o) && forall|p: int| p < o ==> !widevine_box_at(b@, p),
{
    let tag: [u8; 4] = [0x70u8, 0x73u8, 0x73u8, 0x68u8];
    assert(tag@ =~= pssh_tag());
    let wv = widevine_id();
    if b.len() < 4 {
        assert forall|o: int| !widevine_box_at(b@, o) by {}
        return None;
    }
    let mut o: usize = 0;
    while o <= b.len() - 4
        invariant
            4 <= b.len(),
            o <= b.len() - 3,
            tag@ == pssh_tag(),
            wv@ == widevine_system_id(),
            forall|p: int| 0 <= p < 4 ==> !pssh_at(b@, p),
            forall|p: int| p < o ==> !widevine_box_at(b@, p),
        decreases b.len() - o,
    {
        if bytes_at(b, o, &tag) {
            assert(pssh_at(b@, o as int));
            assert(o >= 4);
            if b.len() - o >= 24 && bytes_at(b, o + 8, wv.as_slice()) {
                let length = b[o - 1] as usize;
                let start = o - 4;
                if length <= b.len() - start {
                    let mut v: Vec<u8> = Vec::new();
                    let mut k: usize = start;
                    while k < start + length
                        invariant
                            start <= k <= start + length <= b.len(),
                            v@ == b@.subrange(start as int, k as int),
                        decreases start + length - k,
                    {
                        v.push(b[k]);
                        assert(v@ =~= b@.subrange(start as int, k + 1));
                        k = k + 1;
                    }
                    assert(widevine_box_at(b@, o as int));
                    return Some(v);
                }
            }
        }
        o = o + 1;
    }
    assert forall|p: int| !widevine_box_at(b@, p) by {
        if p >= o {
            assert(!pssh_at(b@, p));
        }
    }
    None
}

} // verus!
