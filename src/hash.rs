//! The ledger's content hash.
use vstd::prelude::*;
use crate::types::views_of;

verus! {

/// The ledger's default 32-byte blake2b digest of `data`.
pub uninterp spec fn blake2b_256_of(data: Seq<u8>) -> Seq<u8>;

/// Relies on `ckb_hash::blake2b_256`: the 32-byte blake2b digest, with the
/// ledger's personalization, of the given bytes.
#[verifier::external_body]
pub(crate) fn blake2b_256(data: &Vec<u8>) -> (r: Vec<u8>)
    ensures
        r@ == blake2b_256_of(data@),
        r@.len() == 32,
{
    ckb_hash::blake2b_256(data).to_vec()
}

/// The byte strings of `args` one after another.
pub open spec fn concat_all(args: Seq<Seq<u8>>) -> Seq<u8>
    decreases args.len(),
{
    if args.len() == 0 {
        seq![]
    } else {
        concat_all(args.drop_last()) + args.last()
    }
}

/// The digest of the byte strings of `args` fed to the hasher one after another.
pub fn blake2b_args(args: &Vec<Vec<u8>>) -> (r: Vec<u8>)
    ensures
        r@ == blake2b_256_of(concat_all(views_of(args@))),
        r@.len() == 32,
{
    let mut all: Vec<u8> = Vec::new();
    let mut i: usize = 0;
    while i < args.len()
        invariant
            i <= args@.len(),
            all@ == concat_all(views_of(args@.take(i as int))),
        decreases args@.len() - i,
    {
        let arg = &args[i];
        let ghost before = all@;
        let mut k: usize = 0;
        while k < arg.len()
            invariant
                k <= arg@.len(),
                all@ == before + arg@.take(k as int),
            decreases arg@.len() - k,
        {
            all.push(arg[k]);
            k = k + 1;
            assert(all@ =~= before + arg@.take(k as int));
        }
        proof {
            assert(arg@.take(arg@.len() as int) =~= arg@);
            assert(views_of(args@.take(i + 1)).drop_last() =~= views_of(args@.take(i as int)));
        }
        i = i + 1;
    }
    assert(args@.take(args@.len() as int) =~= args@);
    blake2b_256(&all)
}

} // verus!
