use vstd::prelude::*;

verus! {

/// The four bytes of `x`, least significant first.
pub open spec fn le_bytes(x: u32) -> Seq<u8> {
    seq![
        (x % 256) as u8,
        ((x / 256) % 256) as u8,
        ((x / 65536) % 256) as u8,
        ((x / 16777216) % 256) as u8,
    ]
}

/// The key of the slot at `index` under `prefix`.
pub open spec fn element_key_spec(prefix: Seq<u8>, index: u32) -> Seq<u8> {
    prefix + le_bytes(index)
}

/// The key of the length counter under `prefix`.
pub open spec fn len_key_spec(prefix: Seq<u8>) -> Seq<u8> {
    prefix + seq![108u8, 101u8, 110u8]
}

/// Derives the key of the slot at `index`.
pub fn element_key(prefix: &Vec<u8>, index: u32) -> (r: Vec<u8>)
    requires
        prefix@.len() + 4 <= usize::MAX,
    ensures
        r@ == element_key_spec(prefix@, index),
{
    let mut r: Vec<u8> = prefix.clone();
    r.push((index % 256) as u8);
    r.push(((index / 256) % 256) as u8);
    r.push(((index / 65536) % 256) as u8);
    r.push(((index / 16777216) % 256) as u8);
    assert(r@ =~= element_key_spec(prefix@, index));
    r
}

/// Derives the key of the length counter.
pub fn len_key(prefix: &Vec<u8>) -> (r: Vec<u8>)
    requires
        prefix@.len() + 3 <= usize::MAX,
    ensures
        r@ == len_key_spec(prefix@),
{
    let mut r: Vec<u8> = prefix.clone();
    r.push(108u8);
    r.push(101u8);
    r.push(110u8);
    assert(r@ =~= len_key_spec(prefix@));
    r
}

/// Slot keys of distinct indices differ, and no slot key is the length key.
pub proof fn lemma_keys_distinct(prefix: Seq<u8>, i: u32, j: u32)
    ensures
        i != j ==> element_key_spec(prefix, i) != element_key_spec(prefix, j),
        element_key_spec(prefix, i) != len_key_spec(prefix),
{
    if i != j && element_key_spec(prefix, i) == element_key_spec(prefix, j) {
        let n = prefix.len() as int;
        assert(element_key_spec(prefix, i).subrange(n, n + 4) =~= le_bytes(i));
        assert(element_key_spec(prefix, j).subrange(n, n + 4) =~= le_bytes(j));
        assert(le_bytes(i)[0] == le_bytes(j)[0]);
        assert(le_bytes(i)[1] == le_bytes(j)[1]);
        assert(le_bytes(i)[2] == le_bytes(j)[2]);
        assert(le_bytes(i)[3] == le_bytes(j)[3]);
        assert(i == j) by (nonlinear_arith)
            requires
                i % 256 == j % 256,
                (i / 256) % 256 == (j / 256) % 256,
                (i / 65536) % 256 == (j / 65536) % 256,
                (i / 16777216) % 256 == (j / 16777216) % 256,
                i < 4294967296,
                j < 4294967296,
        ;
    }
    assert(element_key_spec(prefix, i).len() != len_key_spec(prefix).len());
}

} // verus!
