//! The derived-key schema: one logical identifier names two physical keys,
//! `"{id}-image"` for the binary payload and `"{id}-mime"` for the
//! content-type label.  The schema is bit-exact so that the physical keys
//! interoperate with any existing store contents, and injective so that
//! distinct identifiers never share a physical entry.

use vstd::prelude::*;

verus! {

broadcast use vstd::string::axiom_str_literal_len, vstd::string::axiom_str_literal_get_char;

/// The physical key holding an identifier's binary payload: `"{id}-image"`.
pub open spec fn image_key_spec(id: Seq<char>) -> Seq<char> {
    id + "-image"@
}

/// The physical key holding an identifier's content-type label: `"{id}-mime"`.
pub open spec fn mime_key_spec(id: Seq<char>) -> Seq<char> {
    id + "-mime"@
}

/// Derives the payload key for `identifier`, exactly `"{identifier}-image"`.
pub fn image_key(identifier: &str) -> (k: String)
    ensures
        k@ == image_key_spec(identifier@),
{
    let owned: String = identifier.to_owned();
    owned.concat("-image")
}

/// Derives the content-type key for `identifier`, exactly `"{identifier}-mime"`.
pub fn mime_key(identifier: &str) -> (k: String)
    ensures
        k@ == mime_key_spec(identifier@),
{
    let owned: String = identifier.to_owned();
    owned.concat("-mime")
}

/// Appending one fixed suffix to two strings preserves their distinctness.
proof fn lemma_append_injective(a: Seq<char>, b: Seq<char>, s: Seq<char>)
    requires
        a + s == b + s,
    ensures
        a == b,
{
    assert((a + s).len() == a.len() + s.len());
    assert((b + s).len() == b.len() + s.len());
    assert(a.len() == b.len());
    assert forall|i: int| 0 <= i < a.len() implies a[i] == b[i] by {
        assert((a + s)[i] == a[i]);
        assert((b + s)[i] == b[i]);
    }
    assert(a =~= b);
}

/// A payload key can never spell a content-type key: the two suffixes
/// already differ at the second character from the end.
proof fn lemma_suffixes_distinct(a: Seq<char>, b: Seq<char>)
    ensures
        a + "-image"@ != b + "-mime"@,
{
    reveal_strlit("-image");
    reveal_strlit("-mime");
    let x = a + "-image"@;
    let y = b + "-mime"@;
    if x == y {
        assert(x.len() == a.len() + 6);
        assert(y.len() == b.len() + 5);
        assert(x[x.len() - 2] == "-image"@[4]);
        assert(y[y.len() - 2] == "-mime"@[3]);
        assert("-image"@[4] == 'g');
        assert("-mime"@[3] == 'm');
        assert(false);
    }
}

/// Key derivation is deterministic and injective: distinct identifiers never
/// collide on either derived key, and a payload key never equals a
/// content-type key, whatever the identifiers.
pub proof fn lemma_key_derivation_injective(id1: Seq<char>, id2: Seq<char>)
    ensures
        image_key_spec(id1) == image_key_spec(id2) ==> id1 == id2,
        mime_key_spec(id1) == mime_key_spec(id2) ==> id1 == id2,
        image_key_spec(id1) != mime_key_spec(id2),
{
    if image_key_spec(id1) == image_key_spec(id2) {
        lemma_append_injective(id1, id2, "-image"@);
    }
    if mime_key_spec(id1) == mime_key_spec(id2) {
        lemma_append_injective(id1, id2, "-mime"@);
    }
    lemma_suffixes_distinct(id1, id2);
}

/// The same statement quantified over every pair of identifiers, for use
/// where a proof walks a whole key space at once.
pub proof fn lemma_key_derivation_injective_all()
    ensures
        forall|a: Seq<char>, b: Seq<char>|
            #![trigger image_key_spec(a), image_key_spec(b)]
            image_key_spec(a) == image_key_spec(b) ==> a == b,
        forall|a: Seq<char>, b: Seq<char>|
            #![trigger mime_key_spec(a), mime_key_spec(b)]
            mime_key_spec(a) == mime_key_spec(b) ==> a == b,
        forall|a: Seq<char>, b: Seq<char>|
            #![trigger image_key_spec(a), mime_key_spec(b)]
            image_key_spec(a) != mime_key_spec(b),
{
    assert forall|a: Seq<char>, b: Seq<char>|
        #![trigger image_key_spec(a), image_key_spec(b)]
        image_key_spec(a) == image_key_spec(b) implies a == b by {
        lemma_key_derivation_injective(a, b);
    }
    assert forall|a: Seq<char>, b: Seq<char>|
        #![trigger mime_key_spec(a), mime_key_spec(b)]
        mime_key_spec(a) == mime_key_spec(b) implies a == b by {
        lemma_key_derivation_injective(a, b);
    }
    assert forall|a: Seq<char>, b: Seq<char>|
        #![trigger image_key_spec(a), mime_key_spec(b)]
        image_key_spec(a) != mime_key_spec(b) by {
        lemma_key_derivation_injective(a, b);
    }
}

} // verus!
