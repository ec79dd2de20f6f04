//! Console sanitizer: turns a raw chunk read from the device's console into
//! matchable text by dropping every byte that is neither printable ASCII nor
//! ASCII whitespace.

use vstd::prelude::*;

verus! {

/// A byte survives sanitization when it is printable ASCII (`0x20..=0x7e`)
/// or ASCII whitespace (tab, newline, form feed, carriage return; space is
/// already printable), so that multi-line boot banners stay matchable.
pub open spec fn keep_byte(b: u8) -> bool {
    (0x20 <= b && b <= 0x7e) || b == 0x09 || b == 0x0a || b == 0x0c || b == 0x0d
}

/// The sanitized form of a raw chunk: every byte that is not printable ASCII
/// and not ASCII whitespace is dropped.  Bytes of multi-byte encodings and of
/// decoding replacements all lie outside the kept range, so this byte-level
/// rule coincides with decoding permissively and then dropping every
/// character that is not printable ASCII and not ASCII whitespace.
pub open spec fn sanitize_spec(s: Seq<u8>) -> Seq<u8>
    decreases s.len(),
{
    if s.len() == 0 {
        Seq::empty()
    } else if keep_byte(s.first()) {
        seq![s.first()] + sanitize_spec(s.drop_first())
    } else {
        sanitize_spec(s.drop_first())
    }
}

/// Sanitizing a single byte keeps it or drops it.
proof fn lemma_sanitize_singleton(b: u8)
    ensures
        sanitize_spec(seq![b]) == if keep_byte(b) {
            seq![b]
        } else {
            Seq::<u8>::empty()
        },
{
    reveal_with_fuel(sanitize_spec, 2);
    assert(seq![b].drop_first() =~= Seq::<u8>::empty());
    if keep_byte(b) {
        assert(seq![b] + Seq::<u8>::empty() =~= seq![b]);
    }
}

/// Sanitization distributes over concatenation: a chunk boundary never
/// changes what the accumulated buffer holds.
pub proof fn lemma_sanitize_app(a: Seq<u8>, b: Seq<u8>)
    ensures
        sanitize_spec(a + b) == sanitize_spec(a) + sanitize_spec(b),
    decreases a.len(),
{
    if a.len() == 0 {
        assert(a + b =~= b);
        assert(sanitize_spec(a) + sanitize_spec(b) =~= sanitize_spec(b));
    } else {
        lemma_sanitize_app(a.drop_first(), b);
        assert((a + b).first() == a.first());
        assert((a + b).drop_first() =~= a.drop_first() + b);
        if keep_byte(a.first()) {
            assert(seq![a.first()] + (sanitize_spec(a.drop_first()) + sanitize_spec(b)) =~= (seq![
                a.first(),
            ] + sanitize_spec(a.drop_first())) + sanitize_spec(b));
        }
    }
}

/// Every byte of a sanitized chunk is a kept byte.
pub proof fn lemma_sanitize_all_kept(s: Seq<u8>)
    ensures
        forall|i: int|
            0 <= i < sanitize_spec(s).len() ==> keep_byte(#[trigger] sanitize_spec(s)[i]),
    decreases s.len(),
{
    if s.len() > 0 {
        lemma_sanitize_all_kept(s.drop_first());
        let rest = sanitize_spec(s.drop_first());
        if keep_byte(s.first()) {
            assert forall|i: int| 0 <= i < sanitize_spec(s).len() implies keep_byte(
                #[trigger] sanitize_spec(s)[i],
            ) by {
                if i > 0 {
                    assert(sanitize_spec(s)[i] == rest[i - 1]);
                }
            }
        }
    }
}

/// A chunk of kept bytes sanitizes to itself.
pub proof fn lemma_sanitize_kept_identity(s: Seq<u8>)
    requires
        forall|i: int| 0 <= i < s.len() ==> keep_byte(#[trigger] s[i]),
    ensures
        sanitize_spec(s) == s,
    decreases s.len(),
{
    if s.len() == 0 {
        assert(sanitize_spec(s) =~= s);
    } else {
        assert(keep_byte(s[0]));
        assert(forall|i: int|
            0 <= i < s.drop_first().len() ==> keep_byte(#[trigger] s.drop_first()[i]));
        lemma_sanitize_kept_identity(s.drop_first());
        assert(seq![s.first()] + s.drop_first() =~= s);
    }
}

/// Law: sanitization is idempotent.  Sanitizing already-sanitized text is a
/// no-op, for arbitrary byte input.
pub proof fn lemma_sanitize_idempotent(s: Seq<u8>)
    ensures
        sanitize_spec(sanitize_spec(s)) == sanitize_spec(s),
{
    lemma_sanitize_all_kept(s);
    lemma_sanitize_kept_identity(sanitize_spec(s));
}

/// Sanitizes one raw chunk from the console: decodes permissively at byte
/// level and keeps only printable ASCII and ASCII whitespace, so control
/// bytes and escape characters never reach the session buffer.
pub fn sanitize(chunk: &[u8]) -> (r: Vec<u8>)
    ensures
        r@ == sanitize_spec(chunk@),
{
    let mut out: Vec<u8> = Vec::new();
    let mut i: usize = 0;
    while i < chunk.len()
        invariant
            i <= chunk@.len(),
            out@ == sanitize_spec(chunk@.take(i as int)),
        decreases chunk@.len() - i,
    {
        let b = chunk[i];
        if (0x20 <= b && b <= 0x7e) || b == 0x09 || b == 0x0a || b == 0x0c || b == 0x0d {
            out.push(b);
        }
        proof {
            assert(chunk@.take(i + 1 as int) =~= chunk@.take(i as int) + seq![chunk@[i as int]]);
            lemma_sanitize_app(chunk@.take(i as int), seq![chunk@[i as int]]);
            lemma_sanitize_singleton(chunk@[i as int]);
        }
        i = i + 1;
    }
    proof {
        assert(chunk@.take(chunk@.len() as int) =~= chunk@);
    }
    out
}

} // verus!
