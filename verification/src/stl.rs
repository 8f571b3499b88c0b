//! The layout of a binary STL stream: an 80-byte header, a little-endian
//! facet count, and one 50-byte record per facet.

use crate::decoder::u32_le;
use crate::facet::{StlFacet, FACET_RECORD_LEN};
use crate::vector::Vector3D;
use crate::vertex_map::{dedup, lemma_add_all, lemma_add_all_push, spec_add};
use vstd::prelude::*;

verus! {

/// Length in bytes of the header.
pub const HEADER_LEN: usize = 80;

/// Length in bytes of the facet count.
pub const COUNT_LEN: usize = 4;

/// The bytes of the text `solid `, with which an ASCII file begins.
pub open spec fn ascii_mark() -> Seq<u8> {
    seq![0x73u8, 0x6fu8, 0x6cu8, 0x69u8, 0x64u8, 0x20u8]
}

/// The input begins with the mark of an ASCII file.
pub open spec fn is_ascii(bytes: Seq<u8>) -> bool {
    ascii_mark().is_prefix_of(bytes)
}

/// The input has a whole header, and the header does not announce an
/// ASCII file: what follows the header is read as a binary body.
pub open spec fn has_binary_body(bytes: Seq<u8>) -> bool {
    bytes.len() >= HEADER_LEN && !is_ascii(bytes)
}

/// The facet count that a binary body declares: its first four bytes, or
/// zero when it has fewer.
pub open spec fn declared_facets(body: Seq<u8>) -> nat {
    if body.len() >= COUNT_LEN {
        u32_le(body) as nat
    } else {
        0
    }
}

/// What follows the facet count in a binary body.
pub open spec fn records(body: Seq<u8>) -> Seq<u8> {
    if body.len() >= COUNT_LEN {
        body.skip(COUNT_LEN as int)
    } else {
        Seq::empty()
    }
}

/// The body holds a whole record for every facet that it declares.
pub open spec fn is_complete(body: Seq<u8>) -> bool {
    records(body).len() >= FACET_RECORD_LEN * declared_facets(body)
}

/// The facets of a binary body, in file order.
pub open spec fn binary_facets(body: Seq<u8>) -> Seq<StlFacet> {
    Seq::new(
        declared_facets(body),
        |i: int| StlFacet::decode(records(body).skip(FACET_RECORD_LEN * i)),
    )
}

/// The facets that an input yields: those of its binary body, and none
/// when the header is short or announces an ASCII file.
pub open spec fn facets_of(bytes: Seq<u8>) -> Seq<StlFacet> {
    if has_binary_body(bytes) {
        binary_facets(bytes.skip(HEADER_LEN as int))
    } else {
        Seq::empty()
    }
}

/// The input can be decoded: if it has a binary body, the body is
/// complete.
pub open spec fn is_readable(bytes: Seq<u8>) -> bool {
    has_binary_body(bytes) ==> is_complete(bytes.skip(HEADER_LEN as int))
}

/// What is left of a readable input after it was decoded: the bytes
/// behind the last facet record of a binary body, and nothing otherwise.
pub open spec fn unread_after(bytes: Seq<u8>) -> Seq<u8> {
    if has_binary_body(bytes) {
        let body = bytes.skip(HEADER_LEN as int);
        records(body).skip(FACET_RECORD_LEN * declared_facets(body))
    } else {
        Seq::empty()
    }
}

/// The triangle soup: the vertex values of the facets in reading order,
/// three for each facet.
pub open spec fn soup(facets: Seq<StlFacet>) -> Seq<Vector3D> {
    Seq::new(
        3 * facets.len(),
        |k: int|
            if k % 3 == 0 {
                facets[k / 3].v1
            } else if k % 3 == 1 {
                facets[k / 3].v2
            } else {
                facets[k / 3].v3
            },
    )
}

/// One more facet adds its three vertices to the end of the soup.
pub proof fn lemma_soup_push(facets: Seq<StlFacet>, f: StlFacet)
    ensures
        soup(facets.push(f)) == soup(facets).push(f.v1).push(f.v2).push(f.v3),
{
    assert(soup(facets.push(f)) =~= soup(facets).push(f.v1).push(f.v2).push(f.v3));
}

/// The soup holds the three vertices of every facet.
pub proof fn lemma_soup_holds(facets: Seq<StlFacet>, i: int)
    requires
        0 <= i < facets.len(),
    ensures
        soup(facets).contains(facets[i].v1),
        soup(facets).contains(facets[i].v2),
        soup(facets).contains(facets[i].v3),
{
    let all = soup(facets);
    assert(all[3 * i] == facets[i].v1);
    assert(all[3 * i + 1] == facets[i].v2);
    assert(all[3 * i + 2] == facets[i].v3);
}

/// The table of one more facet is the table so far with the three
/// vertices of the facet added in order.
pub proof fn lemma_dedup_push(facets: Seq<StlFacet>, f: StlFacet)
    ensures
        dedup(soup(facets.push(f))) == spec_add(
            spec_add(spec_add(dedup(soup(facets)), f.v1).0, f.v2).0,
            f.v3,
        ).0,
{
    let seen = soup(facets);
    lemma_soup_push(facets, f);
    lemma_add_all_push(Seq::empty(), seen, f.v1);
    lemma_add_all_push(Seq::empty(), seen.push(f.v1), f.v2);
    lemma_add_all_push(Seq::empty(), seen.push(f.v1).push(f.v2), f.v3);
}

/// The table of a list of facets holds every vertex of every facet, and
/// no value twice.
pub proof fn lemma_dedup_holds(facets: Seq<StlFacet>)
    ensures
        dedup(soup(facets)).no_duplicates(),
        forall|i: int|
            0 <= i < facets.len() ==> dedup(soup(facets)).contains((#[trigger] facets[i]).v1)
                && dedup(soup(facets)).contains(facets[i].v2) && dedup(soup(facets)).contains(
                facets[i].v3,
            ),
{
    lemma_add_all(Seq::empty(), soup(facets));
    assert forall|i: int| 0 <= i < facets.len() implies dedup(soup(facets)).contains(
        (#[trigger] facets[i]).v1,
    ) && dedup(soup(facets)).contains(facets[i].v2) && dedup(soup(facets)).contains(
        facets[i].v3,
    ) by {
        lemma_soup_holds(facets, i);
    }
}

/// A complete body holds a whole record at the place of every facet that
/// it declares; the facet there is the next one of the list, and the
/// records behind it begin fifty bytes further on.
pub proof fn lemma_next_record(body: Seq<u8>, i: int)
    requires
        is_complete(body),
        0 <= i < declared_facets(body),
    ensures
        records(body).skip(FACET_RECORD_LEN * i).len() >= FACET_RECORD_LEN,
        binary_facets(body)[i] == StlFacet::decode(records(body).skip(FACET_RECORD_LEN * i)),
        records(body).skip(FACET_RECORD_LEN * i).skip(FACET_RECORD_LEN as int) == records(
            body,
        ).skip(FACET_RECORD_LEN * (i + 1)),
        binary_facets(body).take(i).push(binary_facets(body)[i]) == binary_facets(body).take(i + 1),
{
    let recs = records(body);
    assert(recs.skip(FACET_RECORD_LEN * i).skip(FACET_RECORD_LEN as int) =~= recs.skip(
        FACET_RECORD_LEN * (i + 1),
    ));
    assert(binary_facets(body).take(i).push(binary_facets(body)[i]) =~= binary_facets(body).take(
        i + 1,
    ));
}

} // verus!
