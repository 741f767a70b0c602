//! Serialization of file metadata with a stable, self-describing binary
//! schema: length-prefixed strings and byte blocks, little-endian
//! integers, tagged options. Serializing and deserializing are both
//! verified, and the encoding is injective, so a round trip recovers
//! every field.

use crate::errors::VdfsError;
use crate::hashing::ContentHash;
use crate::metadata::{
    metadata_eq, mode_of, FileMetadata, FileType, Permissions,
};
use crate::textutil::string_from_utf8;
use vstd::bytes::{
    lemma_auto_spec_u64_to_from_le_bytes, spec_u64_to_le_bytes, u64_from_le_bytes,
    u64_to_le_bytes,
};
use vstd::prelude::*;
use vstd::slice::slice_subrange;
use vstd::string::StringSliceAdditionalSpecFns;
use vstd::utf8::{encode_utf8, encode_utf8_decode_utf8};

verus! {

/// A u64, as 8 little-endian bytes.
pub open spec fn enc_u64(x: u64) -> Seq<u8> {
    spec_u64_to_le_bytes(x)
}

/// A byte block: its length, then its bytes.
pub open spec fn enc_bytes(b: Seq<u8>) -> Seq<u8> {
    enc_u64(b.len() as u64) + b
}

/// A string: its UTF-8 bytes as a byte block.
pub open spec fn enc_str(s: Seq<char>) -> Seq<u8> {
    enc_bytes(encode_utf8(s))
}

/// An optional byte block: a tag byte, then the block when present.
pub open spec fn enc_opt_bytes(o: Option<Seq<u8>>) -> Seq<u8> {
    match o {
        None => seq![0u8],
        Some(b) => seq![1u8] + enc_bytes(b),
    }
}

/// An optional string: a tag byte, then the string when present.
pub open spec fn enc_opt_str(o: Option<Seq<char>>) -> Seq<u8> {
    match o {
        None => seq![0u8],
        Some(s) => seq![1u8] + enc_str(s),
    }
}

/// The tag byte of a file type.
pub open spec fn file_type_byte(ft: FileType) -> u8 {
    match ft {
        FileType::File => 0u8,
        FileType::Directory => 1u8,
        FileType::Symlink => 2u8,
    }
}

/// A list of content hashes: its length, then each hash as a byte block.
pub open spec fn enc_hash_list(hs: Seq<ContentHash>) -> Seq<u8>
    decreases hs.len(),
{
    if hs.len() == 0 {
        Seq::empty()
    } else {
        enc_bytes(hs[0]@) + enc_hash_list(hs.drop_first())
    }
}

/// The view of an optional content hash.
pub open spec fn opt_hash_view(o: Option<ContentHash>) -> Option<Seq<u8>> {
    match o {
        None => None,
        Some(h) => Some(h@),
    }
}

/// The view of an optional string.
pub open spec fn opt_str_view(o: Option<String>) -> Option<Seq<char>> {
    match o {
        None => None,
        Some(s) => Some(s@),
    }
}

/// The full encoding of a metadata record: each field in order,
/// right-nested so that a prefix always splits off one whole field.
pub open spec fn encode_metadata(m: FileMetadata) -> Seq<u8> {
    enc_str(m.path@) + (seq![file_type_byte(m.file_type)] + (enc_u64(m.size) + (enc_opt_bytes(
        opt_hash_view(m.content_hash),
    ) + (enc_u64(m.chunks@.len() as u64) + (enc_hash_list(m.chunks@) + (enc_u64(
        mode_of(m.permissions) as u64,
    ) + (enc_u64(m.created) + (enc_u64(m.modified) + (enc_u64(m.accessed) + (enc_opt_str(
        opt_str_view(m.symlink_target),
    ) + (enc_u64(m.version) + enc_opt_str(opt_str_view(m.modified_by)))))))))))))
}

/// Concatenation of sequences is associative.
proof fn lemma_concat_assoc(a: Seq<u8>, b: Seq<u8>, c: Seq<u8>)
    ensures
        (a + b) + c == a + (b + c),
{
    assert((a + b) + c =~= a + (b + c));
}

/// Whether `piece` occurs verbatim at offset `pos` of `bytes`.
pub open spec fn prefix_at(bytes: Seq<u8>, pos: int, piece: Seq<u8>) -> bool {
    0 <= pos && pos + piece.len() <= bytes.len() && bytes.subrange(pos, pos + piece.len())
        == piece
}

/// A concatenation at an offset gives a prefix and the remaining suffix.
proof fn lemma_split_concat_at(bytes: Seq<u8>, pos: int, a: Seq<u8>, rest: Seq<u8>)
    requires
        0 <= pos <= bytes.len(),
        bytes.subrange(pos, bytes.len() as int) == a + rest,
    ensures
        prefix_at(bytes, pos, a),
        pos + a.len() <= bytes.len(),
        bytes.subrange(pos + a.len(), bytes.len() as int) == rest,
{
    let tail = bytes.subrange(pos, bytes.len() as int);
    assert(bytes.subrange(pos, pos + a.len()) =~= tail.subrange(0, a.len() as int));
    assert(tail.subrange(0, a.len() as int) =~= a);
    assert(bytes.subrange(pos + a.len(), bytes.len() as int) =~= tail.subrange(
        a.len() as int,
        tail.len() as int,
    ));
    assert(tail.subrange(a.len() as int, tail.len() as int) =~= rest);
}

/// Two u64 encodings at the same offset carry the same value.
proof fn lemma_u64_prefix_value(bytes: Seq<u8>, pos: int, v: u64, x: u64)
    requires
        prefix_at(bytes, pos, enc_u64(v)),
        prefix_at(bytes, pos, enc_u64(x)),
    ensures
        v == x,
{
    lemma_auto_spec_u64_to_from_le_bytes();
    assert(enc_u64(v) =~= bytes.subrange(pos, pos + 8));
    assert(enc_u64(x) =~= bytes.subrange(pos, pos + 8));
}

/// Two byte blocks occurring at the same offset are the same block.
proof fn lemma_block_prefix_unique(bytes: Seq<u8>, pos: int, x: Seq<u8>, y: Seq<u8>)
    requires
        x.len() <= u64::MAX,
        y.len() <= u64::MAX,
        prefix_at(bytes, pos, enc_bytes(x)),
        prefix_at(bytes, pos, enc_bytes(y)),
    ensures
        x == y,
{
    lemma_auto_spec_u64_to_from_le_bytes();
    assert(bytes.subrange(pos, pos + 8) =~= bytes.subrange(pos, pos + 8 + x.len()).subrange(
        0,
        8,
    ));
    assert(bytes.subrange(pos, pos + 8 + x.len()).subrange(0, 8) =~= enc_u64(x.len() as u64));
    assert(bytes.subrange(pos, pos + 8) =~= bytes.subrange(pos, pos + 8 + y.len()).subrange(
        0,
        8,
    ));
    assert(bytes.subrange(pos, pos + 8 + y.len()).subrange(0, 8) =~= enc_u64(y.len() as u64));
    assert(x.len() == y.len());
    assert(x =~= bytes.subrange(pos, pos + 8 + x.len()).subrange(8, 8 + x.len() as int));
    assert(y =~= bytes.subrange(pos, pos + 8 + y.len()).subrange(8, 8 + y.len() as int));
}

/// Two optional byte blocks occurring at the same offset agree.
proof fn lemma_opt_bytes_align(bytes: Seq<u8>, pos: int, o1: Option<Seq<u8>>, o2: Option<Seq<u8>>)
    requires
        o1 matches Some(b) ==> b.len() <= u64::MAX,
        o2 matches Some(b) ==> b.len() <= u64::MAX,
        prefix_at(bytes, pos, enc_opt_bytes(o1)),
        prefix_at(bytes, pos, enc_opt_bytes(o2)),
    ensures
        o1 == o2,
{
    match (o1, o2) {
        (None, None) => {},
        (Some(b1), Some(b2)) => {
            assert(prefix_at(bytes, pos + 1, enc_bytes(b1))) by {
                assert(bytes.subrange(pos + 1, pos + 1 + enc_bytes(b1).len())
                    =~= bytes.subrange(pos, pos + enc_opt_bytes(o1).len()).subrange(
                    1,
                    1 + enc_bytes(b1).len() as int,
                ));
                assert(bytes.subrange(pos, pos + enc_opt_bytes(o1).len()).subrange(
                    1,
                    1 + enc_bytes(b1).len() as int,
                ) =~= enc_bytes(b1));
            }
            assert(prefix_at(bytes, pos + 1, enc_bytes(b2))) by {
                assert(bytes.subrange(pos + 1, pos + 1 + enc_bytes(b2).len())
                    =~= bytes.subrange(pos, pos + enc_opt_bytes(o2).len()).subrange(
                    1,
                    1 + enc_bytes(b2).len() as int,
                ));
                assert(bytes.subrange(pos, pos + enc_opt_bytes(o2).len()).subrange(
                    1,
                    1 + enc_bytes(b2).len() as int,
                ) =~= enc_bytes(b2));
            }
            lemma_block_prefix_unique(bytes, pos + 1, b1, b2);
        },
        (None, Some(b2)) => {
            assert(bytes[pos] == 0u8) by {
                assert(bytes.subrange(pos, pos + 1)[0] == 0u8);
            }
            assert(bytes[pos] == 1u8) by {
                assert(bytes.subrange(pos, pos + enc_opt_bytes(o2).len())[0] == 1u8);
            }
        },
        (Some(b1), None) => {
            assert(bytes[pos] == 0u8) by {
                assert(bytes.subrange(pos, pos + 1)[0] == 0u8);
            }
            assert(bytes[pos] == 1u8) by {
                assert(bytes.subrange(pos, pos + enc_opt_bytes(o1).len())[0] == 1u8);
            }
        },
    }
}

proof fn lemma_enc_hash_list_snoc(hs: Seq<ContentHash>, h: ContentHash)
    ensures
        enc_hash_list(hs.push(h)) == enc_hash_list(hs) + enc_bytes(h@),
    decreases hs.len(),
{
    if hs.len() == 0 {
        assert(hs.push(h)[0] == h);
        assert(hs.push(h).drop_first() =~= Seq::<ContentHash>::empty());
        assert(enc_hash_list(hs.push(h)) =~= enc_bytes(h@) + enc_hash_list(
            Seq::<ContentHash>::empty(),
        ));
        assert(enc_bytes(h@) + enc_hash_list(Seq::<ContentHash>::empty()) =~= enc_bytes(h@));
        assert(enc_hash_list(hs) + enc_bytes(h@) =~= enc_bytes(h@));
    } else {
        assert(hs.push(h)[0] == hs[0]);
        assert(hs.push(h).drop_first() =~= hs.drop_first().push(h));
        lemma_enc_hash_list_snoc(hs.drop_first(), h);
        assert(enc_bytes(hs[0]@) + (enc_hash_list(hs.drop_first()) + enc_bytes(h@))
            =~= (enc_bytes(hs[0]@) + enc_hash_list(hs.drop_first())) + enc_bytes(h@));
    }
}

/// Append a u64 to the output.
fn push_u64(out: &mut Vec<u8>, x: u64)
    ensures
        final(out)@ == old(out)@ + enc_u64(x),
{
    let mut bytes = u64_to_le_bytes(x);
    let ghost prev = out@;
    out.append(&mut bytes);
    proof {
        assert(out@ =~= prev + enc_u64(x));
    }
}

/// Append a byte block to the output.
fn push_bytes(out: &mut Vec<u8>, b: &[u8])
    requires
        b@.len() <= u64::MAX,
    ensures
        final(out)@ == old(out)@ + enc_bytes(b@),
{
    push_u64(out, b.len() as u64);
    let ghost mid = out@;
    let mut i: usize = 0;
    while i < b.len()
        invariant
            i <= b@.len(),
            out@ == mid + b@.subrange(0, i as int),
        decreases b@.len() - i,
    {
        out.push(b[i]);
        proof {
            assert(out@ =~= mid + b@.subrange(0, i + 1));
        }
        i = i + 1;
    }
    proof {
        assert(out@ =~= old(out)@ + enc_bytes(b@));
    }
}

/// Append a string to the output.
fn push_str(out: &mut Vec<u8>, s: &str)
    ensures
        final(out)@ == old(out)@ + enc_str(s@),
{
    let bytes = s.as_bytes();
    let n = bytes.len();
    proof {
        assert(bytes@.len() == n <= u64::MAX);
    }
    push_bytes(out, bytes);
}

/// Two hash lists of the same length occurring at the same offset agree
/// hash for hash, so their encodings have the same length.
proof fn lemma_hash_list_prefix_unique(
    bytes: Seq<u8>,
    pos: int,
    xs: Seq<ContentHash>,
    ys: Seq<ContentHash>,
)
    requires
        xs.len() == ys.len(),
        forall|i: int| 0 <= i < xs.len() ==> (#[trigger] xs[i])@.len() <= u64::MAX,
        forall|i: int| 0 <= i < ys.len() ==> (#[trigger] ys[i])@.len() <= u64::MAX,
        prefix_at(bytes, pos, enc_hash_list(xs)),
        prefix_at(bytes, pos, enc_hash_list(ys)),
    ensures
        enc_hash_list(xs).len() == enc_hash_list(ys).len(),
    decreases xs.len(),
{
    if xs.len() > 0 {
        assert(enc_hash_list(xs) == enc_bytes(xs[0]@) + enc_hash_list(xs.drop_first()));
        assert(enc_hash_list(ys) == enc_bytes(ys[0]@) + enc_hash_list(ys.drop_first()));
        assert(prefix_at(bytes, pos, enc_bytes(xs[0]@))) by {
            assert(bytes.subrange(pos, pos + enc_bytes(xs[0]@).len()) =~= bytes.subrange(
                pos,
                pos + enc_hash_list(xs).len(),
            ).subrange(0, enc_bytes(xs[0]@).len() as int));
            assert(bytes.subrange(pos, pos + enc_hash_list(xs).len()).subrange(
                0,
                enc_bytes(xs[0]@).len() as int,
            ) =~= enc_bytes(xs[0]@));
        }
        assert(prefix_at(bytes, pos, enc_bytes(ys[0]@))) by {
            assert(bytes.subrange(pos, pos + enc_bytes(ys[0]@).len()) =~= bytes.subrange(
                pos,
                pos + enc_hash_list(ys).len(),
            ).subrange(0, enc_bytes(ys[0]@).len() as int));
            assert(bytes.subrange(pos, pos + enc_hash_list(ys).len()).subrange(
                0,
                enc_bytes(ys[0]@).len() as int,
            ) =~= enc_bytes(ys[0]@));
        }
        lemma_block_prefix_unique(bytes, pos, xs[0]@, ys[0]@);
        let step = enc_bytes(xs[0]@).len() as int;
        assert(prefix_at(bytes, pos + step, enc_hash_list(xs.drop_first()))) by {
            assert(bytes.subrange(pos + step, pos + enc_hash_list(xs).len())
                =~= bytes.subrange(pos, pos + enc_hash_list(xs).len()).subrange(
                step,
                enc_hash_list(xs).len() as int,
            ));
            assert(bytes.subrange(pos, pos + enc_hash_list(xs).len()).subrange(
                step,
                enc_hash_list(xs).len() as int,
            ) =~= enc_hash_list(xs.drop_first()));
        }
        assert(prefix_at(bytes, pos + step, enc_hash_list(ys.drop_first()))) by {
            assert(bytes.subrange(pos + step, pos + enc_hash_list(ys).len())
                =~= bytes.subrange(pos, pos + enc_hash_list(ys).len()).subrange(
                step,
                enc_hash_list(ys).len() as int,
            ));
            assert(bytes.subrange(pos, pos + enc_hash_list(ys).len()).subrange(
                step,
                enc_hash_list(ys).len() as int,
            ) =~= enc_hash_list(ys.drop_first()));
        }
        assert forall|i: int| 0 <= i < xs.drop_first().len() implies (
        #[trigger] xs.drop_first()[i])@.len() <= u64::MAX by {
            assert(xs.drop_first()[i] == xs[i + 1]);
        }
        assert forall|i: int| 0 <= i < ys.drop_first().len() implies (
        #[trigger] ys.drop_first()[i])@.len() <= u64::MAX by {
            assert(ys.drop_first()[i] == ys[i + 1]);
        }
        lemma_hash_list_prefix_unique(bytes, pos + step, xs.drop_first(), ys.drop_first());
    }
}

/// Read `count` content hashes at `pos`; the consumed bytes are their
/// list encoding, and the encoding of any 32-byte-hash list of that
/// length found at `pos` parses with the matching end position.
fn read_hash_list(bytes: &[u8], pos: usize, count: u64) -> (r: Option<(Vec<ContentHash>, usize)>)
    ensures
        r matches Some((v, p)) ==> pos <= p <= bytes@.len() && v@.len() == count
            && bytes@.subrange(pos as int, p as int) == enc_hash_list(v@) && (forall|i: int|
            0 <= i < v@.len() ==> (#[trigger] v@[i])@.len() == 32),
        forall|hs: Seq<ContentHash>|
            hs.len() == count && (forall|i: int| 0 <= i < hs.len() ==> (#[trigger] hs[i])@.len()
                == 32) && #[trigger] prefix_at(bytes@, pos as int, enc_hash_list(hs)) ==> r
                is Some,
{
    let ghost hyp = exists|hs: Seq<ContentHash>|
        hs.len() == count && (forall|i: int| 0 <= i < hs.len() ==> (#[trigger] hs[i])@.len()
            == 32) && #[trigger] prefix_at(bytes@, pos as int, enc_hash_list(hs));
    let ghost hs0 = choose|hs: Seq<ContentHash>|
        hs.len() == count && (forall|i: int| 0 <= i < hs.len() ==> (#[trigger] hs[i])@.len()
            == 32) && #[trigger] prefix_at(bytes@, pos as int, enc_hash_list(hs));
    let ghost start = pos as int;
    let ghost rend = pos as int + enc_hash_list(hs0).len() as int;
    proof {
        if hyp {
            assert(hs0.skip(0) =~= hs0);
            assert(bytes@.subrange(start, rend) == enc_hash_list(hs0.skip(0)));
        }
    }
    if pos > bytes.len() {
        proof {
            if hyp {
                lemma_auto_spec_u64_to_from_le_bytes();
                assert(false);
            }
        }
        return None;
    }
    let mut out: Vec<ContentHash> = Vec::new();
    let mut cur = pos;
    let mut k: u64 = 0;
    proof {
        assert(enc_hash_list(out@) =~= Seq::<u8>::empty());
        assert(bytes@.subrange(start, cur as int) =~= enc_hash_list(out@));
    }
    while k < count
        invariant
            k <= count,
            out@.len() == k,
            start == pos as int,
            0 <= start <= cur as int <= bytes@.len(),
            bytes@.subrange(start, cur as int) == enc_hash_list(out@),
            forall|i: int| 0 <= i < out@.len() ==> (#[trigger] out@[i])@.len() == 32,
            hyp == exists|hs: Seq<ContentHash>|
                hs.len() == count && (forall|i: int|
                    0 <= i < hs.len() ==> (#[trigger] hs[i])@.len() == 32) && #[trigger] prefix_at(
                    bytes@,
                    start,
                    enc_hash_list(hs),
                ),
            hyp ==> {
                &&& hs0.len() == count
                &&& (forall|i: int| 0 <= i < hs0.len() ==> (#[trigger] hs0[i])@.len() == 32)
                &&& rend == start + enc_hash_list(hs0).len()
                &&& rend <= bytes@.len()
                &&& cur as int <= rend
                &&& bytes@.subrange(cur as int, rend) == enc_hash_list(hs0.skip(k as int))
            },
        decreases count - k,
    {
        let ghost pre_pos = cur as int;
        let ghost pre_out = out@;
        proof {
            if hyp {
                let tail = hs0.skip(k as int);
                assert(tail.len() > 0);
                assert(tail[0] == hs0[k as int]);
                assert(tail.drop_first() =~= hs0.skip(k as int + 1));
                assert(enc_hash_list(tail) == enc_bytes(hs0[k as int]@) + enc_hash_list(
                    hs0.skip(k as int + 1),
                ));
                assert(pre_pos + enc_bytes(hs0[k as int]@).len() <= rend);
                assert(prefix_at(bytes@, pre_pos, enc_bytes(hs0[k as int]@))) by {
                    assert(bytes@.subrange(pre_pos, pre_pos + enc_bytes(hs0[k as int]@).len())
                        =~= bytes@.subrange(pre_pos, rend).subrange(
                        0,
                        enc_bytes(hs0[k as int]@).len() as int,
                    ));
                    assert(bytes@.subrange(pre_pos, rend).subrange(
                        0,
                        enc_bytes(hs0[k as int]@).len() as int,
                    ) =~= enc_bytes(hs0[k as int]@));
                }
                assert(hs0[k as int]@.len() == 32);
            }
        }
        let rh = read_hash(bytes, cur);
        proof {
            if hyp {
                assert(rh is Some);
            }
        }
        let (h, new_pos) = match rh {
            Some(v) => v,
            None => {
                proof {
                    if hyp {
                        assert(false);
                    }
                }
                return None;
            },
        };
        out.push(h);
        cur = new_pos;
        proof {
            assert(out@ =~= pre_out.push(h));
            lemma_enc_hash_list_snoc(pre_out, h);
            lemma_subrange_split(bytes@, start, pre_pos, cur as int);
            assert(bytes@.subrange(start, cur as int) =~= enc_hash_list(pre_out) + enc_bytes(
                h@,
            ));
            if hyp {
                assert(prefix_at(bytes@, pre_pos, enc_bytes(h@))) by {
                    assert(bytes@.subrange(pre_pos, cur as int) == enc_bytes(h@));
                }
                lemma_block_prefix_unique(bytes@, pre_pos, h@, hs0[k as int]@);
                assert(cur as int == pre_pos + enc_bytes(hs0[k as int]@).len());
                assert(bytes@.subrange(cur as int, rend) =~= bytes@.subrange(
                    pre_pos,
                    rend,
                ).subrange(cur as int - pre_pos, rend - pre_pos));
                assert(bytes@.subrange(pre_pos, rend).subrange(
                    cur as int - pre_pos,
                    rend - pre_pos,
                ) =~= enc_hash_list(hs0.skip(k as int + 1)));
            }
        }
        k = k + 1;
    }
    proof {
        if hyp {
            assert(hs0.skip(count as int) =~= Seq::<ContentHash>::empty());
            assert(enc_hash_list(hs0.skip(count as int)) =~= Seq::<u8>::empty());
            assert(cur as int == rend);
        }
    }
    Some((out, cur))
}

/// Thirteen adjacent regions that each hold one field's encoding
/// assemble to the record's whole encoding.
proof fn lemma_assemble_metadata(
    whole: Seq<u8>,
    p1: int, p2: int, p3: int, p4: int, p5: int, p6: int, p7: int, p8: int, p9: int,
    p10: int, p11: int, p12: int, pend: int,
    m: FileMetadata,
)
    requires
        0 <= p1 <= p2 <= p3 <= p4 <= p5 <= p6 <= p7 <= p8 <= p9 <= p10 <= p11 <= p12 <= pend,
        pend == whole.len(),
        whole.subrange(0, p1) == enc_str(m.path@),
        whole.subrange(p1, p2) == seq![file_type_byte(m.file_type)],
        whole.subrange(p2, p3) == enc_u64(m.size),
        whole.subrange(p3, p4) == enc_opt_bytes(opt_hash_view(m.content_hash)),
        whole.subrange(p4, p5) == enc_u64(m.chunks@.len() as u64),
        whole.subrange(p5, p6) == enc_hash_list(m.chunks@),
        whole.subrange(p6, p7) == enc_u64(mode_of(m.permissions) as u64),
        whole.subrange(p7, p8) == enc_u64(m.created),
        whole.subrange(p8, p9) == enc_u64(m.modified),
        whole.subrange(p9, p10) == enc_u64(m.accessed),
        whole.subrange(p10, p11) == enc_opt_str(opt_str_view(m.symlink_target)),
        whole.subrange(p11, p12) == enc_u64(m.version),
        whole.subrange(p12, pend) == enc_opt_str(opt_str_view(m.modified_by)),
    ensures
        whole == encode_metadata(m),
{
    let all = whole.len() as int;
    assert(whole =~= whole.subrange(0, all));
    lemma_subrange_split(whole, 0, p1, all);
    lemma_subrange_split(whole, p1, p2, all);
    lemma_subrange_split(whole, p2, p3, all);
    lemma_subrange_split(whole, p3, p4, all);
    lemma_subrange_split(whole, p4, p5, all);
    lemma_subrange_split(whole, p5, p6, all);
    lemma_subrange_split(whole, p6, p7, all);
    lemma_subrange_split(whole, p7, p8, all);
    lemma_subrange_split(whole, p8, p9, all);
    lemma_subrange_split(whole, p9, p10, all);
    lemma_subrange_split(whole, p10, p11, all);
    lemma_subrange_split(whole, p11, p12, all);
    assert(whole.subrange(p12, all) == whole.subrange(p12, pend));
    assert(whole == encode_metadata(m));
}

impl FileMetadata {
    /// Serialize to the stable binary schema.
    #[verifier::rlimit(100)]
    pub fn to_bytes(&self) -> (r: Vec<u8>)
        ensures
            r@ == encode_metadata(*self),
    {
        let mut out: Vec<u8> = Vec::new();
        push_str(&mut out, self.path.as_str());
        let ghost g1 = out@;
        match self.file_type {
            FileType::File => out.push(0u8),
            FileType::Directory => out.push(1u8),
            FileType::Symlink => out.push(2u8),
        }
        proof {
            assert(out@ =~= g1 + seq![file_type_byte(self.file_type)]);
        }
        let ghost g2 = out@;
        push_u64(&mut out, self.size);
        let ghost g3 = out@;
        match &self.content_hash {
            None => {
                out.push(0u8);
                proof {
                    assert(out@ =~= g3 + enc_opt_bytes(opt_hash_view(self.content_hash)));
                }
            },
            Some(h) => {
                out.push(1u8);
                let hb = h.as_bytes().as_slice();
                let hn = hb.len();
                proof {
                    assert(hb@.len() == hn <= u64::MAX);
                }
                push_bytes(&mut out, hb);
                proof {
                    assert(out@ =~= g3 + enc_opt_bytes(opt_hash_view(self.content_hash)));
                }
            },
        }
        let ghost g4 = out@;
        push_u64(&mut out, self.chunks.len() as u64);
        let ghost g5 = out@;
        let mut i: usize = 0;
        proof {
            assert(enc_hash_list(self.chunks@.subrange(0, 0)) =~= Seq::<u8>::empty());
            assert(out@ =~= g5 + enc_hash_list(self.chunks@.subrange(0, 0)));
        }
        while i < self.chunks.len()
            invariant
                i <= self.chunks@.len(),
                out@ == g5 + enc_hash_list(self.chunks@.subrange(0, i as int)),
            decreases self.chunks@.len() - i,
        {
            let ghost pre = self.chunks@.subrange(0, i as int);
            let cb = self.chunks[i].as_bytes().as_slice();
            let cn = cb.len();
            proof {
                assert(cb@.len() == cn <= u64::MAX);
            }
            push_bytes(&mut out, cb);
            proof {
                assert(self.chunks@.subrange(0, i + 1) =~= pre.push(self.chunks@[i as int]));
                lemma_enc_hash_list_snoc(pre, self.chunks@[i as int]);
                assert(out@ =~= g5 + enc_hash_list(self.chunks@.subrange(0, i + 1)));
            }
            i = i + 1;
        }
        proof {
            assert(self.chunks@.subrange(0, self.chunks@.len() as int) =~= self.chunks@);
        }
        let ghost g6 = out@;
        push_u64(&mut out, self.permissions.to_mode() as u64);
        let ghost g7 = out@;
        push_u64(&mut out, self.created);
        let ghost g8 = out@;
        push_u64(&mut out, self.modified);
        let ghost g9 = out@;
        push_u64(&mut out, self.accessed);
        let ghost g10 = out@;
        match &self.symlink_target {
            None => {
                out.push(0u8);
                proof {
                    assert(out@ =~= g10 + enc_opt_str(opt_str_view(self.symlink_target)));
                }
            },
            Some(t) => {
                out.push(1u8);
                push_str(&mut out, t.as_str());
                proof {
                    assert(out@ =~= g10 + enc_opt_str(opt_str_view(self.symlink_target)));
                }
            },
        }
        let ghost g11 = out@;
        push_u64(&mut out, self.version);
        let ghost g12 = out@;
        match &self.modified_by {
            None => {
                out.push(0u8);
                proof {
                    assert(out@ =~= g12 + enc_opt_str(opt_str_view(self.modified_by)));
                }
            },
            Some(n) => {
                out.push(1u8);
                push_str(&mut out, n.as_str());
                proof {
                    assert(out@ =~= g12 + enc_opt_str(opt_str_view(self.modified_by)));
                }
            },
        }
        proof {
            let e1 = enc_str(self.path@);
            let e2 = seq![file_type_byte(self.file_type)];
            let e3 = enc_u64(self.size);
            let e4 = enc_opt_bytes(opt_hash_view(self.content_hash));
            let e5 = enc_u64(self.chunks@.len() as u64);
            let e6 = enc_hash_list(self.chunks@);
            let e7 = enc_u64(mode_of(self.permissions) as u64);
            let e8 = enc_u64(self.created);
            let e9 = enc_u64(self.modified);
            let e10 = enc_u64(self.accessed);
            let e11 = enc_opt_str(opt_str_view(self.symlink_target));
            let e12 = enc_u64(self.version);
            let e13 = enc_opt_str(opt_str_view(self.modified_by));
            lemma_concat_assoc(g11, e12, e13);
            assert(out@ == g11 + (e12 + e13));
            lemma_concat_assoc(g10, e11, e12 + e13);
            assert(out@ == g10 + (e11 + (e12 + e13)));
            lemma_concat_assoc(g9, e10, e11 + (e12 + e13));
            assert(out@ == g9 + (e10 + (e11 + (e12 + e13))));
            lemma_concat_assoc(g8, e9, e10 + (e11 + (e12 + e13)));
            assert(out@ == g8 + (e9 + (e10 + (e11 + (e12 + e13)))));
            lemma_concat_assoc(g7, e8, e9 + (e10 + (e11 + (e12 + e13))));
            assert(out@ == g7 + (e8 + (e9 + (e10 + (e11 + (e12 + e13))))));
            lemma_concat_assoc(g6, e7, e8 + (e9 + (e10 + (e11 + (e12 + e13)))));
            assert(out@ == g6 + (e7 + (e8 + (e9 + (e10 + (e11 + (e12 + e13)))))));
            lemma_concat_assoc(g5, e6, e7 + (e8 + (e9 + (e10 + (e11 + (e12 + e13))))));
            assert(out@ == g5 + (e6 + (e7 + (e8 + (e9 + (e10 + (e11 + (e12 + e13))))))));
            lemma_concat_assoc(g4, e5, e6 + (e7 + (e8 + (e9 + (e10 + (e11 + (e12 + e13)))))));
            assert(out@ == g4 + (e5 + (e6 + (e7 + (e8 + (e9 + (e10 + (e11 + (e12
                + e13)))))))));
            lemma_concat_assoc(
                g3,
                e4,
                e5 + (e6 + (e7 + (e8 + (e9 + (e10 + (e11 + (e12 + e13))))))),
            );
            assert(out@ == g3 + (e4 + (e5 + (e6 + (e7 + (e8 + (e9 + (e10 + (e11 + (e12
                + e13))))))))));
            lemma_concat_assoc(
                g2,
                e3,
                e4 + (e5 + (e6 + (e7 + (e8 + (e9 + (e10 + (e11 + (e12 + e13)))))))),
            );
            assert(out@ == g2 + (e3 + (e4 + (e5 + (e6 + (e7 + (e8 + (e9 + (e10 + (e11 + (e12
                + e13)))))))))));
            lemma_concat_assoc(
                g1,
                e2,
                e3 + (e4 + (e5 + (e6 + (e7 + (e8 + (e9 + (e10 + (e11 + (e12 + e13))))))))),
            );
            assert(out@ == g1 + (e2 + (e3 + (e4 + (e5 + (e6 + (e7 + (e8 + (e9 + (e10 + (e11
                + (e12 + e13))))))))))));
            assert(g1 =~= e1);
            assert(out@ == e1 + (e2 + (e3 + (e4 + (e5 + (e6 + (e7 + (e8 + (e9 + (e10 + (e11
                + (e12 + e13))))))))))));
            assert(out@ == encode_metadata(*self));
        }
        out
    }

    /// Deserialize from the stable binary schema.
    ///
    /// Exactly the encodings of metadata records are accepted: a
    /// successful parse yields a record that encodes back to the whole
    /// input, the encoding of every encodable record parses
    /// successfully, and the encoding is injective (see the round-trip
    /// law), so every field of an encoded record is recovered.
    #[verifier::rlimit(100)]
    pub fn from_bytes(bytes: &[u8]) -> (r: Result<FileMetadata, VdfsError>)
        ensures
            r matches Ok(m) ==> bytes@ == encode_metadata(m),
            r matches Err(e) ==> e is Serialization,
            (exists|m0: FileMetadata| encodable(m0) && bytes@ == encode_metadata(m0)) ==> r
                is Ok,
    {
        let ghost hyp = exists|m0: FileMetadata| encodable(m0) && bytes@ == encode_metadata(m0);
        let ghost m0 = choose|m0: FileMetadata| encodable(m0) && bytes@ == encode_metadata(m0);
        let ghost blen = bytes@.len() as int;
        let ghost e1 = enc_str(m0.path@);
        let ghost e2 = seq![file_type_byte(m0.file_type)];
        let ghost e3 = enc_u64(m0.size);
        let ghost e4 = enc_opt_bytes(opt_hash_view(m0.content_hash));
        let ghost e5 = enc_u64(m0.chunks@.len() as u64);
        let ghost e6 = enc_hash_list(m0.chunks@);
        let ghost e7 = enc_u64(mode_of(m0.permissions) as u64);
        let ghost e8 = enc_u64(m0.created);
        let ghost e9 = enc_u64(m0.modified);
        let ghost e10 = enc_u64(m0.accessed);
        let ghost e11 = enc_opt_str(opt_str_view(m0.symlink_target));
        let ghost e12 = enc_u64(m0.version);
        let ghost e13 = enc_opt_str(opt_str_view(m0.modified_by));
        let ghost s13 = e13;
        let ghost s12 = e12 + s13;
        let ghost s11 = e11 + s12;
        let ghost s10 = e10 + s11;
        let ghost s9 = e9 + s10;
        let ghost s8 = e8 + s9;
        let ghost s7 = e7 + s8;
        let ghost s6 = e6 + s7;
        let ghost s5 = e5 + s6;
        let ghost s4 = e4 + s5;
        let ghost s3 = e3 + s4;
        let ghost s2 = e2 + s3;
        proof {
            if hyp {
                assert(bytes@.subrange(0, blen) =~= bytes@);
                assert(encode_metadata(m0) == e1 + s2);
                lemma_split_concat_at(bytes@, 0, e1, s2);
            }
        }
        let r1 = read_str(bytes, 0);
        proof {
            if hyp {
                assert(r1 is Some);
            }
        }
        let (path, pos) = match r1 {
            Some(v) => v,
            None => {
                return Err(VdfsError::Serialization("metadata: bad path".to_owned()));
            },
        };
        let ghost p1 = pos as int;
        proof {
            if hyp {
                assert(prefix_at(bytes@, 0, enc_bytes(encode_utf8(path@)))) by {
                    assert(bytes@.subrange(0, p1) == enc_str(path@));
                }
                lemma_auto_spec_u64_to_from_le_bytes();
                lemma_block_prefix_unique(bytes@, 0, encode_utf8(path@), encode_utf8(m0.path@));
                assert(p1 == e1.len());
                assert(bytes@.subrange(p1, blen) == s2);
                lemma_split_concat_at(bytes@, p1, e2, s3);
            }
        }
        if pos >= bytes.len() {
            proof {
                if hyp {
                    assert(p1 + 1 <= blen);
                    assert(false);
                }
            }
            return Err(VdfsError::Serialization("metadata: truncated".to_owned()));
        }
        let ft_byte = bytes[pos];
        proof {
            if hyp {
                assert(bytes@[p1] == file_type_byte(m0.file_type)) by {
                    assert(bytes@.subrange(p1, p1 + 1)[0] == file_type_byte(m0.file_type));
                }
            }
        }
        let file_type = if ft_byte == 0 {
            FileType::File
        } else if ft_byte == 1 {
            FileType::Directory
        } else if ft_byte == 2 {
            FileType::Symlink
        } else {
            proof {
                if hyp {
                    assert(false);
                }
            }
            return Err(VdfsError::Serialization("metadata: bad file type".to_owned()));
        };
        let pos = pos + 1;
        let ghost p2 = pos as int;
        proof {
            if hyp {
                assert(bytes@.subrange(p2, blen) == s3);
                lemma_split_concat_at(bytes@, p2, e3, s4);
                assert(e3.len() == 8) by {
                    lemma_auto_spec_u64_to_from_le_bytes();
                }
            }
        }
        let r3 = read_u64(bytes, pos);
        proof {
            if hyp {
                assert(r3 is Some);
            }
        }
        let (size, pos) = match r3 {
            Some(v) => v,
            None => {
                return Err(VdfsError::Serialization("metadata: bad size".to_owned()));
            },
        };
        let ghost p3 = pos as int;
        proof {
            if hyp {
                assert(bytes@.subrange(p3, blen) == s4);
                lemma_split_concat_at(bytes@, p3, e4, s5);
            }
        }
        let r4 = read_opt_hash(bytes, pos);
        proof {
            if hyp {
                match m0.content_hash {
                    Some(h0) => {
                        assert(e4 == enc_opt_bytes(Some(h0@)));
                        assert(h0@.len() == 32);
                        assert(r4 is Some);
                    },
                    None => {
                        assert(e4 == seq![0u8]);
                        assert(r4 is Some);
                    },
                }
            }
        }
        let (content_hash, pos) = match r4 {
            Some(v) => v,
            None => {
                return Err(VdfsError::Serialization("metadata: bad content hash".to_owned()));
            },
        };
        let ghost p4 = pos as int;
        proof {
            if hyp {
                assert(prefix_at(bytes@, p3, enc_opt_bytes(opt_hash_view(content_hash)))) by {
                    assert(bytes@.subrange(p3, p4) == enc_opt_bytes(opt_hash_view(content_hash)));
                }
                lemma_opt_bytes_align(
                    bytes@,
                    p3,
                    opt_hash_view(content_hash),
                    opt_hash_view(m0.content_hash),
                );
                assert(p4 == p3 + e4.len());
                assert(bytes@.subrange(p4, blen) == s5);
                lemma_split_concat_at(bytes@, p4, e5, s6);
            }
        }
        let r5 = read_u64(bytes, pos);
        proof {
            if hyp {
                assert(e5.len() == 8) by {
                    lemma_auto_spec_u64_to_from_le_bytes();
                }
                assert(r5 is Some);
            }
        }
        let (count, pos) = match r5 {
            Some(v) => v,
            None => {
                return Err(VdfsError::Serialization("metadata: bad chunk count".to_owned()));
            },
        };
        let ghost p5 = pos as int;
        proof {
            if hyp {
                assert(prefix_at(bytes@, p4, enc_u64(count))) by {
                    assert(bytes@.subrange(p4, p5) == enc_u64(count));
                }
                lemma_u64_prefix_value(bytes@, p4, count, m0.chunks@.len() as u64);
                assert(count == m0.chunks@.len());
                assert(bytes@.subrange(p5, blen) == s6);
                assert(m0.chunks@.skip(0) =~= m0.chunks@);
                assert(bytes@.subrange(p5, blen) == enc_hash_list(m0.chunks@.skip(0)) + s7);
            }
        }
        proof {
            if hyp {
                assert(prefix_at(bytes@, p5, e6)) by {
                    lemma_split_concat_at(bytes@, p5, e6, s7);
                }
            }
        }
        let rl = read_hash_list(bytes, pos, count);
        proof {
            if hyp {
                assert(rl is Some);
            }
        }
        let (chunks, pos) = match rl {
            Some(v) => v,
            None => {
                proof {
                    if hyp {
                        assert(false);
                    }
                }
                return Err(VdfsError::Serialization("metadata: bad chunk id".to_owned()));
            },
        };
        let ghost p6 = pos as int;
        proof {
            if hyp {
                assert(prefix_at(bytes@, p5, enc_hash_list(chunks@))) by {
                    assert(bytes@.subrange(p5, p6) == enc_hash_list(chunks@));
                }
                lemma_hash_list_prefix_unique(bytes@, p5, chunks@, m0.chunks@);
                assert(p6 == p5 + e6.len());
                assert(bytes@.subrange(p6, blen) == s7) by {
                    lemma_split_concat_at(bytes@, p5, e6, s7);
                }
                lemma_split_concat_at(bytes@, p6, e7, s8);
                assert(e7.len() == 8) by {
                    lemma_auto_spec_u64_to_from_le_bytes();
                }
            }
        }
        let r7 = read_u64(bytes, pos);
        proof {
            if hyp {
                assert(r7 is Some);
            }
        }
        let (mode, pos) = match r7 {
            Some(v) => v,
            None => {
                return Err(VdfsError::Serialization("metadata: bad mode".to_owned()));
            },
        };
        let ghost p7 = pos as int;
        proof {
            if hyp {
                assert(prefix_at(bytes@, p6, enc_u64(mode))) by {
                    assert(bytes@.subrange(p6, p7) == enc_u64(mode));
                }
                lemma_u64_prefix_value(bytes@, p6, mode, mode_of(m0.permissions) as u64);
                crate::metadata::lemma_mode_of_bound(m0.permissions);
                assert(mode <= 0x1FF);
                assert(bytes@.subrange(p7, blen) == s8);
                lemma_split_concat_at(bytes@, p7, e8, s9);
            }
        }
        if mode > 0x1FF {
            proof {
                if hyp {
                    assert(false);
                }
            }
            return Err(VdfsError::Serialization("metadata: bad mode".to_owned()));
        }
        let r8 = read_u64(bytes, pos);
        proof {
            if hyp {
                assert(r8 is Some);
            }
        }
        let (created, pos) = match r8 {
            Some(v) => v,
            None => {
                return Err(VdfsError::Serialization("metadata: bad created time".to_owned()));
            },
        };
        let ghost p8 = pos as int;
        proof {
            if hyp {
                assert(bytes@.subrange(p8, blen) == s9);
                lemma_split_concat_at(bytes@, p8, e9, s10);
            }
        }
        let r9 = read_u64(bytes, pos);
        proof {
            if hyp {
                assert(r9 is Some);
            }
        }
        let (modified, pos) = match r9 {
            Some(v) => v,
            None => {
                return Err(VdfsError::Serialization("metadata: bad modified time".to_owned()));
            },
        };
        let ghost p9 = pos as int;
        proof {
            if hyp {
                assert(bytes@.subrange(p9, blen) == s10);
                lemma_split_concat_at(bytes@, p9, e10, s11);
            }
        }
        let r10 = read_u64(bytes, pos);
        proof {
            if hyp {
                assert(r10 is Some);
            }
        }
        let (accessed, pos) = match r10 {
            Some(v) => v,
            None => {
                return Err(VdfsError::Serialization("metadata: bad accessed time".to_owned()));
            },
        };
        let ghost p10 = pos as int;
        proof {
            if hyp {
                assert(bytes@.subrange(p10, blen) == s11);
                lemma_split_concat_at(bytes@, p10, e11, s12);
                match m0.symlink_target {
                    Some(t0) => {
                        assert(e11 == enc_opt_str(Some(t0@)));
                    },
                    None => {
                        assert(e11 == seq![0u8]);
                    },
                }
            }
        }
        let r11 = read_opt_str(bytes, pos);
        proof {
            if hyp {
                assert(r11 is Some);
            }
        }
        let (symlink_target, pos) = match r11 {
            Some(v) => v,
            None => {
                return Err(VdfsError::Serialization("metadata: bad symlink target".to_owned()));
            },
        };
        let ghost p11 = pos as int;
        proof {
            if hyp {
                assert(enc_opt_str(opt_str_view(symlink_target)) == enc_opt_bytes(
                    opt_utf8_view(opt_str_view(symlink_target)),
                ));
                assert(e11 == enc_opt_bytes(opt_utf8_view(opt_str_view(m0.symlink_target))));
                assert(prefix_at(
                    bytes@,
                    p10,
                    enc_opt_bytes(opt_utf8_view(opt_str_view(symlink_target))),
                )) by {
                    assert(bytes@.subrange(p10, p11) == enc_opt_str(
                        opt_str_view(symlink_target),
                    ));
                }
                lemma_opt_bytes_align(
                    bytes@,
                    p10,
                    opt_utf8_view(opt_str_view(symlink_target)),
                    opt_utf8_view(opt_str_view(m0.symlink_target)),
                );
                assert(p11 == p10 + e11.len());
                assert(bytes@.subrange(p11, blen) == s12);
                lemma_split_concat_at(bytes@, p11, e12, s13);
            }
        }
        let r12 = read_u64(bytes, pos);
        proof {
            if hyp {
                assert(e12.len() == 8) by {
                    lemma_auto_spec_u64_to_from_le_bytes();
                }
                assert(r12 is Some);
            }
        }
        let (version, pos) = match r12 {
            Some(v) => v,
            None => {
                return Err(VdfsError::Serialization("metadata: bad version".to_owned()));
            },
        };
        let ghost p12 = pos as int;
        proof {
            if hyp {
                assert(bytes@.subrange(p12, blen) == s13);
                assert(s13 =~= e13 + Seq::<u8>::empty());
                lemma_split_concat_at(bytes@, p12, e13, Seq::empty());
                match m0.modified_by {
                    Some(n0) => {
                        assert(e13 == enc_opt_str(Some(n0@)));
                    },
                    None => {
                        assert(e13 == seq![0u8]);
                    },
                }
            }
        }
        let r13 = read_opt_str(bytes, pos);
        proof {
            if hyp {
                assert(r13 is Some);
            }
        }
        let (modified_by, pos) = match r13 {
            Some(v) => v,
            None => {
                return Err(VdfsError::Serialization("metadata: bad node id".to_owned()));
            },
        };
        proof {
            if hyp {
                assert(enc_opt_str(opt_str_view(modified_by)) == enc_opt_bytes(
                    opt_utf8_view(opt_str_view(modified_by)),
                ));
                assert(e13 == enc_opt_bytes(opt_utf8_view(opt_str_view(m0.modified_by))));
                assert(prefix_at(
                    bytes@,
                    p12,
                    enc_opt_bytes(opt_utf8_view(opt_str_view(modified_by))),
                )) by {
                    assert(bytes@.subrange(p12, pos as int) == enc_opt_str(
                        opt_str_view(modified_by),
                    ));
                }
                lemma_opt_bytes_align(
                    bytes@,
                    p12,
                    opt_utf8_view(opt_str_view(modified_by)),
                    opt_utf8_view(opt_str_view(m0.modified_by)),
                );
                assert(pos as int == p12 + e13.len());
                assert(bytes@.subrange(pos as int, blen) == Seq::<u8>::empty());
                assert(pos as int == blen);
            }
        }
        if pos != bytes.len() {
            proof {
                if hyp {
                    assert(false);
                }
            }
            return Err(VdfsError::Serialization("metadata: trailing bytes".to_owned()));
        }

        let permissions = Permissions::from_mode(mode as u32);
        let m = FileMetadata {
            path,
            file_type,
            size,
            content_hash,
            chunks,
            permissions,
            created,
            modified,
            accessed,
            symlink_target,
            version,
            modified_by,
        };
        proof {
            crate::metadata::lemma_mode_permissions_roundtrip(mode as u32);
            assert(m.chunks@.len() == count);
            assert(bytes@.subrange(p1, p2) =~= seq![file_type_byte(m.file_type)]);
            lemma_assemble_metadata(
                bytes@,
                p1, p2, p3, p4, p5, p6, p7, p8, p9, p10, p11, p12, pos as int,
                m,
            );
        }
        Ok(m)
    }
}

/// The byte-block view of an optional string: its UTF-8 bytes, when
/// present.
pub open spec fn opt_utf8_view(o: Option<Seq<char>>) -> Option<Seq<u8>> {
    match o {
        None => None,
        Some(t) => Some(encode_utf8(t)),
    }
}

/// A sequence splits at any interior point into two adjacent subranges.
proof fn lemma_subrange_split(b: Seq<u8>, i: int, j: int, k: int)
    requires
        0 <= i <= j <= k <= b.len(),
    ensures
        b.subrange(i, k) == b.subrange(i, j) + b.subrange(j, k),
{
    assert(b.subrange(i, k) =~= b.subrange(i, j) + b.subrange(j, k));
}

/// Read a u64 at `pos`; the consumed bytes are its encoding.
fn read_u64(bytes: &[u8], pos: usize) -> (r: Option<(u64, usize)>)
    ensures
        r matches Some((v, p)) ==> p == pos + 8 && p <= bytes@.len() && bytes@.subrange(
            pos as int,
            p as int,
        ) == enc_u64(v),
        pos + 8 <= bytes@.len() ==> r is Some,
{
    if bytes.len() < 8 || pos > bytes.len() - 8 {
        return None;
    }
    let window = slice_subrange(bytes, pos, pos + 8);
    let v = u64_from_le_bytes(window);
    proof {
        lemma_auto_spec_u64_to_from_le_bytes();
        assert(spec_u64_to_le_bytes(v) == window@);
    }
    Some((v, pos + 8))
}

/// Read a byte block at `pos`; the consumed bytes are its encoding.
fn read_block(bytes: &[u8], pos: usize) -> (r: Option<(Vec<u8>, usize)>)
    ensures
        r matches Some((b, p)) ==> pos <= p <= bytes@.len() && bytes@.subrange(
            pos as int,
            p as int,
        ) == enc_bytes(b@),
        forall|b2: Seq<u8>|
            b2.len() <= u64::MAX && #[trigger] prefix_at(bytes@, pos as int, enc_bytes(b2))
                ==> r is Some,
{
    let r64 = read_u64(bytes, pos);
    proof {
        if r64 is None {
            if exists|b2: Seq<u8>|
                b2.len() <= u64::MAX && #[trigger] prefix_at(bytes@, pos as int, enc_bytes(b2)) {
                let b2 = choose|b2: Seq<u8>|
                    b2.len() <= u64::MAX && #[trigger] prefix_at(
                        bytes@,
                        pos as int,
                        enc_bytes(b2),
                    );
                lemma_auto_spec_u64_to_from_le_bytes();
                assert(enc_bytes(b2).len() == 8 + b2.len());
                assert(pos + 8 <= pos + enc_bytes(b2).len() <= bytes@.len());
                assert(false);
            }
        }
    }
    let (len, after_len) = match r64 {
        Some(v) => v,
        None => {
            return None;
        },
    };
    let remaining = bytes.len() - after_len;
    if (remaining as u64) < len {
        proof {
            if exists|b2: Seq<u8>|
                b2.len() <= u64::MAX && #[trigger] prefix_at(bytes@, pos as int, enc_bytes(b2)) {
                let b2 = choose|b2: Seq<u8>|
                    b2.len() <= u64::MAX && #[trigger] prefix_at(
                        bytes@,
                        pos as int,
                        enc_bytes(b2),
                    );
                lemma_auto_spec_u64_to_from_le_bytes();
                assert(bytes@.subrange(pos as int, pos + 8) =~= bytes@.subrange(
                    pos as int,
                    pos + enc_bytes(b2).len(),
                ).subrange(0, 8));
                assert(bytes@.subrange(pos as int, pos + enc_bytes(b2).len()).subrange(0, 8)
                    =~= enc_u64(b2.len() as u64));
                assert(len == b2.len());
                assert(pos + 8 + b2.len() <= bytes@.len());
                assert(false);
            }
        }
        return None;
    }
    let n = len as usize;
    let blen = bytes.len();
    let mut b: Vec<u8> = Vec::new();
    let mut i: usize = 0;
    while i < n
        invariant
            blen == bytes@.len(),
            after_len + n <= blen,
            i <= n,
            b@ == bytes@.subrange(after_len as int, after_len + i),
        decreases n - i,
    {
        b.push(bytes[after_len + i]);
        proof {
            assert(b@ =~= bytes@.subrange(after_len as int, after_len + i + 1));
        }
        i = i + 1;
    }
    proof {
        lemma_subrange_split(bytes@, pos as int, after_len as int, after_len + n);
        assert(bytes@.subrange(pos as int, after_len + n) =~= enc_u64(len) + b@);
        assert(b@.len() == len);
        assert(bytes@.subrange(pos as int, after_len + n) =~= enc_bytes(b@));
    }
    Some((b, after_len + n))
}

/// Read a string at `pos`; the consumed bytes are its encoding.
fn read_str(bytes: &[u8], pos: usize) -> (r: Option<(String, usize)>)
    ensures
        r matches Some((s, p)) ==> pos <= p <= bytes@.len() && bytes@.subrange(
            pos as int,
            p as int,
        ) == enc_str(s@),
        forall|s2: Seq<char>|
            encode_utf8(s2).len() <= u64::MAX && #[trigger] prefix_at(
                bytes@,
                pos as int,
                enc_str(s2),
            ) ==> r is Some,
{
    let ghost hyp = exists|s2: Seq<char>|
        encode_utf8(s2).len() <= u64::MAX && #[trigger] prefix_at(
            bytes@,
            pos as int,
            enc_str(s2),
        );
    let rb = read_block(bytes, pos);
    proof {
        if hyp {
            let s2 = choose|s2: Seq<char>|
                encode_utf8(s2).len() <= u64::MAX && #[trigger] prefix_at(
                    bytes@,
                    pos as int,
                    enc_str(s2),
                );
            assert(prefix_at(bytes@, pos as int, enc_bytes(encode_utf8(s2))));
            assert(rb is Some);
        }
    }
    let (b, p) = match rb {
        Some(v) => v,
        None => {
            return None;
        },
    };
    let ghost raw = b@;
    let rs = string_from_utf8(b);
    proof {
        if hyp {
            let s2 = choose|s2: Seq<char>|
                encode_utf8(s2).len() <= u64::MAX && #[trigger] prefix_at(
                    bytes@,
                    pos as int,
                    enc_str(s2),
                );
            assert(prefix_at(bytes@, pos as int, enc_bytes(raw))) by {
                assert(bytes@.subrange(pos as int, p as int) == enc_bytes(raw));
            }
            lemma_block_prefix_unique(bytes@, pos as int, raw, encode_utf8(s2));
            assert(encode_utf8(s2) == raw);
            assert(rs is Some);
        }
    }
    let s = match rs {
        Some(v) => v,
        None => {
            return None;
        },
    };
    proof {
        assert(encode_utf8(s@) == raw);
    }
    Some((s, p))
}

/// Read an optional content hash at `pos`.
fn read_opt_hash(bytes: &[u8], pos: usize) -> (r: Option<(Option<ContentHash>, usize)>)
    ensures
        r matches Some((o, p)) ==> pos <= p <= bytes@.len() && bytes@.subrange(
            pos as int,
            p as int,
        ) == enc_opt_bytes(opt_hash_view(o)),
        prefix_at(bytes@, pos as int, seq![0u8]) ==> r is Some,
        forall|hb: Seq<u8>|
            hb.len() == 32 && #[trigger] prefix_at(
                bytes@,
                pos as int,
                enc_opt_bytes(Some(hb)),
            ) ==> r is Some,
{
    let ghost hyp = exists|hb: Seq<u8>|
        hb.len() == 32 && #[trigger] prefix_at(bytes@, pos as int, enc_opt_bytes(Some(hb)));
    proof {
        if prefix_at(bytes@, pos as int, seq![0u8]) {
            assert(pos + 1 <= bytes@.len());
            assert(bytes@[pos as int] == 0u8) by {
                assert(bytes@.subrange(pos as int, pos + 1)[0] == 0u8);
            }
        }
        if hyp {
            let hb = choose|hb: Seq<u8>|
                hb.len() == 32 && #[trigger] prefix_at(
                    bytes@,
                    pos as int,
                    enc_opt_bytes(Some(hb)),
                );
            assert(bytes@[pos as int] == 1u8) by {
                assert(bytes@.subrange(pos as int, pos + enc_opt_bytes(Some(hb)).len())[0]
                    == 1u8);
            }
            assert(prefix_at(bytes@, pos + 1, enc_bytes(hb))) by {
                assert(bytes@.subrange(pos + 1, pos + 1 + enc_bytes(hb).len())
                    =~= bytes@.subrange(pos as int, pos + enc_opt_bytes(Some(hb)).len(),
                ).subrange(1, 1 + enc_bytes(hb).len() as int));
                assert(bytes@.subrange(pos as int, pos + enc_opt_bytes(Some(hb)).len()).subrange(
                    1,
                    1 + enc_bytes(hb).len() as int,
                ) =~= enc_bytes(hb));
            }
        }
    }
    if pos >= bytes.len() {
        return None;
    }
    let tag = bytes[pos];
    if tag == 0 {
        proof {
            assert(bytes@.subrange(pos as int, pos + 1) =~= seq![0u8]);
        }
        return Some((None, pos + 1));
    }
    if tag != 1 {
        return None;
    }
    let rh = read_hash(bytes, pos + 1);
    proof {
        if hyp {
            assert(rh is Some);
        }
    }
    let (h, p) = match rh {
        Some(v) => v,
        None => {
            return None;
        },
    };
    proof {
        lemma_subrange_split(bytes@, pos as int, pos + 1, p as int);
        assert(bytes@.subrange(pos as int, pos + 1) =~= seq![1u8]);
    }
    Some((Some(h), p))
}

/// Read a content hash (a 32-byte block) at `pos`.
fn read_hash(bytes: &[u8], pos: usize) -> (r: Option<(ContentHash, usize)>)
    ensures
        r matches Some((h, p)) ==> pos <= p <= bytes@.len() && bytes@.subrange(
            pos as int,
            p as int,
        ) == enc_bytes(h@) && h@.len() == 32,
        forall|hb: Seq<u8>|
            hb.len() == 32 && #[trigger] prefix_at(bytes@, pos as int, enc_bytes(hb)) ==> r
                is Some,
{
    let ghost hyp = exists|hb: Seq<u8>|
        hb.len() == 32 && #[trigger] prefix_at(bytes@, pos as int, enc_bytes(hb));
    let rb = read_block(bytes, pos);
    proof {
        if hyp {
            let hb = choose|hb: Seq<u8>|
                hb.len() == 32 && #[trigger] prefix_at(bytes@, pos as int, enc_bytes(hb));
            assert(rb is Some);
        }
    }
    let (b, p) = match rb {
        Some(v) => v,
        None => {
            return None;
        },
    };
    if b.len() != 32 {
        proof {
            if hyp {
                let hb = choose|hb: Seq<u8>|
                    hb.len() == 32 && #[trigger] prefix_at(bytes@, pos as int, enc_bytes(hb));
                assert(prefix_at(bytes@, pos as int, enc_bytes(b@))) by {
                    assert(bytes@.subrange(pos as int, p as int) == enc_bytes(b@));
                }
                lemma_block_prefix_unique(bytes@, pos as int, b@, hb);
                assert(false);
            }
        }
        return None;
    }
    let ghost raw = b@;
    let h = ContentHash::from_bytes(b);
    proof {
        assert(h@ == raw);
    }
    Some((h, p))
}

/// Read an optional string at `pos`.
fn read_opt_str(bytes: &[u8], pos: usize) -> (r: Option<(Option<String>, usize)>)
    ensures
        r matches Some((o, p)) ==> pos <= p <= bytes@.len() && bytes@.subrange(
            pos as int,
            p as int,
        ) == enc_opt_str(opt_str_view(o)),
        prefix_at(bytes@, pos as int, seq![0u8]) ==> r is Some,
        forall|s2: Seq<char>|
            encode_utf8(s2).len() <= u64::MAX && #[trigger] prefix_at(
                bytes@,
                pos as int,
                enc_opt_str(Some(s2)),
            ) ==> r is Some,
{
    let ghost hyp = exists|s2: Seq<char>|
        encode_utf8(s2).len() <= u64::MAX && #[trigger] prefix_at(
            bytes@,
            pos as int,
            enc_opt_str(Some(s2)),
        );
    proof {
        if prefix_at(bytes@, pos as int, seq![0u8]) {
            assert(pos + 1 <= bytes@.len());
            assert(bytes@[pos as int] == 0u8) by {
                assert(bytes@.subrange(pos as int, pos + 1)[0] == 0u8);
            }
        }
        if hyp {
            let s2 = choose|s2: Seq<char>|
                encode_utf8(s2).len() <= u64::MAX && #[trigger] prefix_at(
                    bytes@,
                    pos as int,
                    enc_opt_str(Some(s2)),
                );
            assert(bytes@[pos as int] == 1u8) by {
                assert(bytes@.subrange(pos as int, pos + enc_opt_str(Some(s2)).len())[0]
                    == 1u8);
            }
            assert(prefix_at(bytes@, pos + 1, enc_str(s2))) by {
                assert(bytes@.subrange(pos + 1, pos + 1 + enc_str(s2).len())
                    =~= bytes@.subrange(pos as int, pos + enc_opt_str(Some(s2)).len(),
                ).subrange(1, 1 + enc_str(s2).len() as int));
                assert(bytes@.subrange(pos as int, pos + enc_opt_str(Some(s2)).len()).subrange(
                    1,
                    1 + enc_str(s2).len() as int,
                ) =~= enc_str(s2));
            }
        }
    }
    if pos >= bytes.len() {
        return None;
    }
    let tag = bytes[pos];
    if tag == 0 {
        proof {
            assert(bytes@.subrange(pos as int, pos + 1) =~= seq![0u8]);
        }
        return Some((None, pos + 1));
    }
    if tag != 1 {
        return None;
    }
    let rs = read_str(bytes, pos + 1);
    proof {
        if hyp {
            assert(rs is Some);
        }
    }
    let (s, p) = match rs {
        Some(v) => v,
        None => {
            return None;
        },
    };
    proof {
        lemma_subrange_split(bytes@, pos as int, pos + 1, p as int);
        assert(bytes@.subrange(pos as int, pos + 1) =~= seq![1u8]);
    }
    Some((Some(s), p))
}

/// A u64 prefix splits off uniquely.
proof fn lemma_peel_u64(a: u64, b: u64, r1: Seq<u8>, r2: Seq<u8>)
    requires
        enc_u64(a) + r1 == enc_u64(b) + r2,
    ensures
        a == b,
        r1 == r2,
{
    lemma_auto_spec_u64_to_from_le_bytes();
    let whole = enc_u64(a) + r1;
    assert(enc_u64(a) =~= whole.subrange(0, 8));
    assert(enc_u64(b) =~= whole.subrange(0, 8));
    assert(a == vstd::bytes::spec_u64_from_le_bytes(enc_u64(a)));
    assert(b == vstd::bytes::spec_u64_from_le_bytes(enc_u64(b)));
    assert(r1 =~= whole.subrange(8, whole.len() as int));
    assert(r2 =~= whole.subrange(8, whole.len() as int));
}

/// A byte block prefix splits off uniquely.
proof fn lemma_peel_bytes(x: Seq<u8>, y: Seq<u8>, r1: Seq<u8>, r2: Seq<u8>)
    requires
        x.len() <= u64::MAX,
        y.len() <= u64::MAX,
        enc_bytes(x) + r1 == enc_bytes(y) + r2,
    ensures
        x == y,
        r1 == r2,
{
    assert((enc_u64(x.len() as u64) + x) + r1 =~= enc_u64(x.len() as u64) + (x + r1));
    assert((enc_u64(y.len() as u64) + y) + r2 =~= enc_u64(y.len() as u64) + (y + r2));
    lemma_peel_u64(x.len() as u64, y.len() as u64, x + r1, y + r2);
    let whole = x + r1;
    assert(x =~= whole.subrange(0, x.len() as int));
    assert(y =~= whole.subrange(0, x.len() as int));
    assert(r1 =~= whole.subrange(x.len() as int, whole.len() as int));
    assert(r2 =~= whole.subrange(x.len() as int, whole.len() as int));
}

/// A string prefix splits off uniquely (UTF-8 encoding is injective).
proof fn lemma_peel_str(x: Seq<char>, y: Seq<char>, r1: Seq<u8>, r2: Seq<u8>)
    requires
        encode_utf8(x).len() <= u64::MAX,
        encode_utf8(y).len() <= u64::MAX,
        enc_str(x) + r1 == enc_str(y) + r2,
    ensures
        x == y,
        r1 == r2,
{
    lemma_peel_bytes(encode_utf8(x), encode_utf8(y), r1, r2);
    encode_utf8_decode_utf8(x);
    encode_utf8_decode_utf8(y);
}

/// A single byte prefix splits off uniquely.
proof fn lemma_peel_byte(a: u8, b: u8, r1: Seq<u8>, r2: Seq<u8>)
    requires
        seq![a] + r1 == seq![b] + r2,
    ensures
        a == b,
        r1 == r2,
{
    let whole = seq![a] + r1;
    assert(a == whole[0]);
    assert(b == whole[0]);
    assert(r1 =~= whole.subrange(1, whole.len() as int));
    assert(r2 =~= whole.subrange(1, whole.len() as int));
}

/// An optional byte block prefix splits off, determining presence and
/// contents.
proof fn lemma_peel_opt_bytes(x: Option<Seq<u8>>, y: Option<Seq<u8>>, r1: Seq<u8>, r2: Seq<u8>)
    requires
        x matches Some(b) ==> b.len() <= u64::MAX,
        y matches Some(b) ==> b.len() <= u64::MAX,
        enc_opt_bytes(x) + r1 == enc_opt_bytes(y) + r2,
    ensures
        x == y,
        r1 == r2,
{
    match (x, y) {
        (None, None) => {
            lemma_peel_byte(0u8, 0u8, r1, r2);
        },
        (Some(bx), Some(by)) => {
            assert((seq![1u8] + enc_bytes(bx)) + r1 =~= seq![1u8] + (enc_bytes(bx) + r1));
            assert((seq![1u8] + enc_bytes(by)) + r2 =~= seq![1u8] + (enc_bytes(by) + r2));
            lemma_peel_byte(1u8, 1u8, enc_bytes(bx) + r1, enc_bytes(by) + r2);
            lemma_peel_bytes(bx, by, r1, r2);
        },
        (None, Some(by)) => {
            assert((seq![1u8] + enc_bytes(by)) + r2 =~= seq![1u8] + (enc_bytes(by) + r2));
            lemma_peel_byte(0u8, 1u8, r1, enc_bytes(by) + r2);
        },
        (Some(bx), None) => {
            assert((seq![1u8] + enc_bytes(bx)) + r1 =~= seq![1u8] + (enc_bytes(bx) + r1));
            lemma_peel_byte(1u8, 0u8, enc_bytes(bx) + r1, r2);
        },
    }
}

/// An optional string prefix splits off, determining presence and
/// contents.
proof fn lemma_peel_opt_str(x: Option<Seq<char>>, y: Option<Seq<char>>, r1: Seq<u8>, r2: Seq<u8>)
    requires
        x matches Some(s) ==> encode_utf8(s).len() <= u64::MAX,
        y matches Some(s) ==> encode_utf8(s).len() <= u64::MAX,
        enc_opt_str(x) + r1 == enc_opt_str(y) + r2,
    ensures
        x == y,
        r1 == r2,
{
    match (x, y) {
        (None, None) => {
            lemma_peel_byte(0u8, 0u8, r1, r2);
        },
        (Some(sx), Some(sy)) => {
            assert((seq![1u8] + enc_str(sx)) + r1 =~= seq![1u8] + (enc_str(sx) + r1));
            assert((seq![1u8] + enc_str(sy)) + r2 =~= seq![1u8] + (enc_str(sy) + r2));
            lemma_peel_byte(1u8, 1u8, enc_str(sx) + r1, enc_str(sy) + r2);
            lemma_peel_str(sx, sy, r1, r2);
        },
        (None, Some(sy)) => {
            assert((seq![1u8] + enc_str(sy)) + r2 =~= seq![1u8] + (enc_str(sy) + r2));
            lemma_peel_byte(0u8, 1u8, r1, enc_str(sy) + r2);
        },
        (Some(sx), None) => {
            assert((seq![1u8] + enc_str(sx)) + r1 =~= seq![1u8] + (enc_str(sx) + r1));
            lemma_peel_byte(1u8, 0u8, enc_str(sx) + r1, r2);
        },
    }
}

/// Hash lists of equal length with equal encodings hold the same hashes.
proof fn lemma_peel_hash_list(
    xs: Seq<ContentHash>,
    ys: Seq<ContentHash>,
    r1: Seq<u8>,
    r2: Seq<u8>,
)
    requires
        xs.len() == ys.len(),
        forall|i: int| 0 <= i < xs.len() ==> (#[trigger] xs[i])@.len() <= u64::MAX,
        forall|i: int| 0 <= i < ys.len() ==> (#[trigger] ys[i])@.len() <= u64::MAX,
        enc_hash_list(xs) + r1 == enc_hash_list(ys) + r2,
    ensures
        forall|i: int| 0 <= i < xs.len() ==> (#[trigger] xs[i])@ == ys[i]@,
        r1 == r2,
    decreases xs.len(),
{
    if xs.len() == 0 {
        assert(enc_hash_list(xs) =~= Seq::<u8>::empty());
        assert(enc_hash_list(ys) =~= Seq::<u8>::empty());
        assert(r1 =~= enc_hash_list(xs) + r1);
        assert(r2 =~= enc_hash_list(ys) + r2);
    } else {
        assert((enc_bytes(xs[0]@) + enc_hash_list(xs.drop_first())) + r1 =~= enc_bytes(xs[0]@)
            + (enc_hash_list(xs.drop_first()) + r1));
        assert((enc_bytes(ys[0]@) + enc_hash_list(ys.drop_first())) + r2 =~= enc_bytes(ys[0]@)
            + (enc_hash_list(ys.drop_first()) + r2));
        lemma_peel_bytes(
            xs[0]@,
            ys[0]@,
            enc_hash_list(xs.drop_first()) + r1,
            enc_hash_list(ys.drop_first()) + r2,
        );
        assert forall|i: int| 0 <= i < xs.drop_first().len() implies (#[trigger] xs.drop_first()[
            i
        ])@.len() <= u64::MAX by {
            assert(xs.drop_first()[i] == xs[i + 1]);
        }
        assert forall|i: int| 0 <= i < ys.drop_first().len() implies (#[trigger] ys.drop_first()[
            i
        ])@.len() <= u64::MAX by {
            assert(ys.drop_first()[i] == ys[i + 1]);
        }
        lemma_peel_hash_list(xs.drop_first(), ys.drop_first(), r1, r2);
        assert forall|i: int| 0 <= i < xs.len() implies (#[trigger] xs[i])@ == ys[i]@ by {
            if i > 0 {
                assert(xs.drop_first()[i - 1]@ == ys.drop_first()[i - 1]@);
                assert(xs.drop_first()[i - 1] == xs[i]);
                assert(ys.drop_first()[i - 1] == ys[i]);
            }
        }
    }
}

/// Whether a metadata record stays within the schema's size bounds:
/// strings of at most u64::MAX encoded bytes and hashes of at most
/// u64::MAX bytes. Every record the library builds satisfies this by
/// machine limits.
pub open spec fn encodable(m: FileMetadata) -> bool {
    &&& encode_utf8(m.path@).len() <= u64::MAX
    &&& (m.content_hash matches Some(h) ==> h@.len() == 32)
    &&& forall|i: int| 0 <= i < m.chunks@.len() ==> (#[trigger] m.chunks@[i])@.len() == 32
    &&& (m.symlink_target matches Some(t) ==> encode_utf8(t@).len() <= u64::MAX)
    &&& (m.modified_by matches Some(n) ==> encode_utf8(n@).len() <= u64::MAX)
    &&& m.chunks@.len() <= u64::MAX
}

/// Metadata round-trip: the schema is injective, so two records with the
/// same encoding agree on every field (path, kind, size, content hash,
/// chunk list, permissions, timestamps, symlink target, version, node
/// id). Together with the serializer and parser contracts, parsing a
/// serialized record recovers all its fields.
pub proof fn lemma_metadata_roundtrip(m1: FileMetadata, m2: FileMetadata)
    requires
        encodable(m1),
        encodable(m2),
        encode_metadata(m1) == encode_metadata(m2),
    ensures
        metadata_eq(m1, m2),
{
    let rest1 = seq![file_type_byte(m1.file_type)] + (enc_u64(m1.size) + (enc_opt_bytes(
        opt_hash_view(m1.content_hash),
    ) + (enc_u64(m1.chunks@.len() as u64) + (enc_hash_list(m1.chunks@) + (enc_u64(
        mode_of(m1.permissions) as u64,
    ) + (enc_u64(m1.created) + (enc_u64(m1.modified) + (enc_u64(m1.accessed) + (enc_opt_str(
        opt_str_view(m1.symlink_target),
    ) + (enc_u64(m1.version) + enc_opt_str(opt_str_view(m1.modified_by))))))))))));
    let rest2 = seq![file_type_byte(m2.file_type)] + (enc_u64(m2.size) + (enc_opt_bytes(
        opt_hash_view(m2.content_hash),
    ) + (enc_u64(m2.chunks@.len() as u64) + (enc_hash_list(m2.chunks@) + (enc_u64(
        mode_of(m2.permissions) as u64,
    ) + (enc_u64(m2.created) + (enc_u64(m2.modified) + (enc_u64(m2.accessed) + (enc_opt_str(
        opt_str_view(m2.symlink_target),
    ) + (enc_u64(m2.version) + enc_opt_str(opt_str_view(m2.modified_by))))))))))));
    lemma_peel_str(m1.path@, m2.path@, rest1, rest2);
    let ra = rest1.subrange(1, rest1.len() as int);
    let rb = rest2.subrange(1, rest2.len() as int);
    lemma_peel_byte(
        file_type_byte(m1.file_type),
        file_type_byte(m2.file_type),
        enc_u64(m1.size) + (enc_opt_bytes(opt_hash_view(m1.content_hash)) + (enc_u64(
            m1.chunks@.len() as u64,
        ) + (enc_hash_list(m1.chunks@) + (enc_u64(mode_of(m1.permissions) as u64) + (enc_u64(
            m1.created,
        ) + (enc_u64(m1.modified) + (enc_u64(m1.accessed) + (enc_opt_str(
            opt_str_view(m1.symlink_target),
        ) + (enc_u64(m1.version) + enc_opt_str(opt_str_view(m1.modified_by))))))))))),
        enc_u64(m2.size) + (enc_opt_bytes(opt_hash_view(m2.content_hash)) + (enc_u64(
            m2.chunks@.len() as u64,
        ) + (enc_hash_list(m2.chunks@) + (enc_u64(mode_of(m2.permissions) as u64) + (enc_u64(
            m2.created,
        ) + (enc_u64(m2.modified) + (enc_u64(m2.accessed) + (enc_opt_str(
            opt_str_view(m2.symlink_target),
        ) + (enc_u64(m2.version) + enc_opt_str(opt_str_view(m2.modified_by))))))))))),
    );
    assert(m1.file_type == m2.file_type);
    lemma_peel_u64(
        m1.size,
        m2.size,
        enc_opt_bytes(opt_hash_view(m1.content_hash)) + (enc_u64(m1.chunks@.len() as u64)
            + (enc_hash_list(m1.chunks@) + (enc_u64(mode_of(m1.permissions) as u64) + (enc_u64(
            m1.created,
        ) + (enc_u64(m1.modified) + (enc_u64(m1.accessed) + (enc_opt_str(
            opt_str_view(m1.symlink_target),
        ) + (enc_u64(m1.version) + enc_opt_str(opt_str_view(m1.modified_by)))))))))),
        enc_opt_bytes(opt_hash_view(m2.content_hash)) + (enc_u64(m2.chunks@.len() as u64)
            + (enc_hash_list(m2.chunks@) + (enc_u64(mode_of(m2.permissions) as u64) + (enc_u64(
            m2.created,
        ) + (enc_u64(m2.modified) + (enc_u64(m2.accessed) + (enc_opt_str(
            opt_str_view(m2.symlink_target),
        ) + (enc_u64(m2.version) + enc_opt_str(opt_str_view(m2.modified_by)))))))))),
    );
    lemma_peel_opt_bytes(
        opt_hash_view(m1.content_hash),
        opt_hash_view(m2.content_hash),
        enc_u64(m1.chunks@.len() as u64) + (enc_hash_list(m1.chunks@) + (enc_u64(
            mode_of(m1.permissions) as u64,
        ) + (enc_u64(m1.created) + (enc_u64(m1.modified) + (enc_u64(m1.accessed) + (enc_opt_str(
            opt_str_view(m1.symlink_target),
        ) + (enc_u64(m1.version) + enc_opt_str(opt_str_view(m1.modified_by))))))))),
        enc_u64(m2.chunks@.len() as u64) + (enc_hash_list(m2.chunks@) + (enc_u64(
            mode_of(m2.permissions) as u64,
        ) + (enc_u64(m2.created) + (enc_u64(m2.modified) + (enc_u64(m2.accessed) + (enc_opt_str(
            opt_str_view(m2.symlink_target),
        ) + (enc_u64(m2.version) + enc_opt_str(opt_str_view(m2.modified_by))))))))),
    );
    lemma_peel_u64(
        m1.chunks@.len() as u64,
        m2.chunks@.len() as u64,
        enc_hash_list(m1.chunks@) + (enc_u64(mode_of(m1.permissions) as u64) + (enc_u64(
            m1.created,
        ) + (enc_u64(m1.modified) + (enc_u64(m1.accessed) + (enc_opt_str(
            opt_str_view(m1.symlink_target),
        ) + (enc_u64(m1.version) + enc_opt_str(opt_str_view(m1.modified_by)))))))),
        enc_hash_list(m2.chunks@) + (enc_u64(mode_of(m2.permissions) as u64) + (enc_u64(
            m2.created,
        ) + (enc_u64(m2.modified) + (enc_u64(m2.accessed) + (enc_opt_str(
            opt_str_view(m2.symlink_target),
        ) + (enc_u64(m2.version) + enc_opt_str(opt_str_view(m2.modified_by)))))))),
    );
    lemma_peel_hash_list(
        m1.chunks@,
        m2.chunks@,
        enc_u64(mode_of(m1.permissions) as u64) + (enc_u64(m1.created) + (enc_u64(m1.modified)
            + (enc_u64(m1.accessed) + (enc_opt_str(opt_str_view(m1.symlink_target)) + (enc_u64(
            m1.version,
        ) + enc_opt_str(opt_str_view(m1.modified_by))))))),
        enc_u64(mode_of(m2.permissions) as u64) + (enc_u64(m2.created) + (enc_u64(m2.modified)
            + (enc_u64(m2.accessed) + (enc_opt_str(opt_str_view(m2.symlink_target)) + (enc_u64(
            m2.version,
        ) + enc_opt_str(opt_str_view(m2.modified_by))))))),
    );
    lemma_peel_u64(
        mode_of(m1.permissions) as u64,
        mode_of(m2.permissions) as u64,
        enc_u64(m1.created) + (enc_u64(m1.modified) + (enc_u64(m1.accessed) + (enc_opt_str(
            opt_str_view(m1.symlink_target),
        ) + (enc_u64(m1.version) + enc_opt_str(opt_str_view(m1.modified_by)))))),
        enc_u64(m2.created) + (enc_u64(m2.modified) + (enc_u64(m2.accessed) + (enc_opt_str(
            opt_str_view(m2.symlink_target),
        ) + (enc_u64(m2.version) + enc_opt_str(opt_str_view(m2.modified_by)))))),
    );
    assert(m1.permissions == m2.permissions) by {
        crate::metadata::lemma_permissions_mode_roundtrip(m1.permissions);
        crate::metadata::lemma_permissions_mode_roundtrip(m2.permissions);
    }
    lemma_peel_u64(
        m1.created,
        m2.created,
        enc_u64(m1.modified) + (enc_u64(m1.accessed) + (enc_opt_str(
            opt_str_view(m1.symlink_target),
        ) + (enc_u64(m1.version) + enc_opt_str(opt_str_view(m1.modified_by))))),
        enc_u64(m2.modified) + (enc_u64(m2.accessed) + (enc_opt_str(
            opt_str_view(m2.symlink_target),
        ) + (enc_u64(m2.version) + enc_opt_str(opt_str_view(m2.modified_by))))),
    );
    lemma_peel_u64(
        m1.modified,
        m2.modified,
        enc_u64(m1.accessed) + (enc_opt_str(opt_str_view(m1.symlink_target)) + (enc_u64(
            m1.version,
        ) + enc_opt_str(opt_str_view(m1.modified_by)))),
        enc_u64(m2.accessed) + (enc_opt_str(opt_str_view(m2.symlink_target)) + (enc_u64(
            m2.version,
        ) + enc_opt_str(opt_str_view(m2.modified_by)))),
    );
    lemma_peel_u64(
        m1.accessed,
        m2.accessed,
        enc_opt_str(opt_str_view(m1.symlink_target)) + (enc_u64(m1.version) + enc_opt_str(
            opt_str_view(m1.modified_by),
        )),
        enc_opt_str(opt_str_view(m2.symlink_target)) + (enc_u64(m2.version) + enc_opt_str(
            opt_str_view(m2.modified_by),
        )),
    );
    lemma_peel_opt_str(
        opt_str_view(m1.symlink_target),
        opt_str_view(m2.symlink_target),
        enc_u64(m1.version) + enc_opt_str(opt_str_view(m1.modified_by)),
        enc_u64(m2.version) + enc_opt_str(opt_str_view(m2.modified_by)),
    );
    lemma_peel_u64(
        m1.version,
        m2.version,
        enc_opt_str(opt_str_view(m1.modified_by)),
        enc_opt_str(opt_str_view(m2.modified_by)),
    );
    lemma_peel_opt_str(
        opt_str_view(m1.modified_by),
        opt_str_view(m2.modified_by),
        Seq::empty(),
        Seq::empty(),
    );
}

} // verus!
