//! The walk from a root pair along a path of junctions.

use vstd::prelude::*;
use crate::adapter::SchemeAdapter;
use crate::bytes::append;
use crate::error::DeriveError;
use crate::hashing::blake2b;
use crate::hashing::blake2b_digest;
use crate::junction::DeriveJunction;
use crate::junction::JunctionView;
use crate::scale::encode_prefixed;
use crate::scale::prefixed;

verus! {

/// The bytes that a hard step hashes: the length-prefixed tag, the secret and
/// the chain code.
pub open spec fn hard_seed_input(tag: Seq<u8>, secret: Seq<u8>, chain_code: Seq<u8>) -> Seq<u8> {
    prefixed(tag) + secret + chain_code
}

/// The seed of the hard child of `secret` under `chain_code`.
pub open spec fn hard_seed<A: SchemeAdapter>(secret: Seq<u8>, chain_code: Seq<u8>) -> Seq<u8> {
    blake2b_digest(
        A::spec_seed_len(),
        hard_seed_input(A::spec_domain_tag(), secret, chain_code),
    )
}

/// The secret reached from `secret` by one junction.
pub open spec fn spec_step<A: SchemeAdapter>(secret: Seq<u8>, junction: JunctionView) -> Result<
    Seq<u8>,
    DeriveError,
> {
    if junction.hard {
        let seed = hard_seed::<A>(secret, junction.chain_code);
        if A::public_of(seed) is Some {
            Ok(seed)
        } else {
            Err(DeriveError::InvalidSeed)
        }
    } else if !A::spec_supports_soft() {
        Err(DeriveError::SoftKeyInPath)
    } else {
        match A::soft_child(secret, junction.chain_code) {
            Some(child) => Ok(child),
            None => Err(DeriveError::InvalidSeed),
        }
    }
}

/// The secret reached from `secret` by the junctions of `path`, in order.
pub open spec fn spec_walk<A: SchemeAdapter>(secret: Seq<u8>, path: Seq<JunctionView>) -> Result<
    Seq<u8>,
    DeriveError,
>
    decreases path.len(),
{
    if path.len() == 0 {
        Ok(secret)
    } else {
        match spec_step::<A>(secret, path[0]) {
            Ok(next) => spec_walk::<A>(next, path.drop_first()),
            Err(e) => Err(e),
        }
    }
}

/// Whether `path` holds a soft junction.
pub open spec fn has_soft(path: Seq<JunctionView>) -> bool {
    exists|i: int| 0 <= i < path.len() && !(#[trigger] path[i]).hard
}

/// The secret derived from `secret` along `path`. Under a scheme without soft
/// keys a soft junction anywhere in the path fails the whole path.
pub open spec fn spec_derive<A: SchemeAdapter>(secret: Seq<u8>, path: Seq<JunctionView>) -> Result<
    Seq<u8>,
    DeriveError,
> {
    if !A::spec_supports_soft() && has_soft(path) {
        Err(DeriveError::SoftKeyInPath)
    } else {
        spec_walk::<A>(secret, path)
    }
}

/// The views of `path`, one for one.
pub open spec fn path_view(path: Seq<DeriveJunction>) -> Seq<JunctionView> {
    Seq::new(path.len(), |i: int| path[i]@)
}

/// Whether `path` holds a soft junction.
pub fn path_has_soft(path: &[DeriveJunction]) -> (soft: bool)
    ensures
        soft == has_soft(path_view(path@)),
{
    let mut i: usize = 0;
    while i < path.len()
        invariant
            i <= path@.len(),
            forall|j: int| 0 <= j < i ==> (#[trigger] path_view(path@)[j]).hard,
        decreases path@.len() - i,
    {
        if path[i].is_soft() {
            assert(!path_view(path@)[i as int].hard);
            return true;
        }
        i += 1;
    }
    false
}

/// The seed of the hard child of `secret` under `chain_code`.
pub fn derive_hard_seed<A: SchemeAdapter>(secret: &[u8], chain_code: &[u8; 32]) -> (seed: Vec<u8>)
    ensures
        seed@ == hard_seed::<A>(secret@, chain_code@),
        seed@.len() == A::spec_seed_len(),
{
    let tag = A::domain_tag();
    let mut input = encode_prefixed(tag.as_slice());
    append(&mut input, secret);
    append(&mut input, chain_code.as_slice());
    blake2b(A::seed_len(), input.as_slice())
}

/// Derives the pair that `path` leads to from `root`.
///
/// The junctions are taken in path order. A hard junction hashes the current
/// secret with the chain code into a seed and takes the pair of that seed; a
/// soft junction asks the scheme for the soft child. Under a scheme without
/// soft keys a path with a soft junction fails with `SoftKeyInPath`, wherever
/// the junction stands, and no part of the path is derived; no other path
/// fails with that error.
pub fn derive<A: SchemeAdapter>(root: &A, path: &[DeriveJunction]) -> (out: Result<A, DeriveError>)
    requires
        root.wf(),
    ensures
        match out {
            Ok(pair) => pair.wf() && spec_derive::<A>(root.spec_secret(), path_view(path@)) == Ok::<
                Seq<u8>,
                DeriveError,
            >(pair.spec_secret()),
            Err(e) => spec_derive::<A>(root.spec_secret(), path_view(path@)) == Err::<
                Seq<u8>,
                DeriveError,
            >(e),
        },
        out matches Err(DeriveError::SoftKeyInPath) <==> !A::spec_supports_soft() && has_soft(
            path_view(path@),
        ),
{
    proof {
        lemma_soft_error_needs_soft_junction::<A>(root.spec_secret(), path_view(path@));
    }
    let soft = A::supports_soft_derivation();
    if !soft && path_has_soft(path) {
        return Err(DeriveError::SoftKeyInPath);
    }
    let ghost views = path_view(path@);
    let ghost whole = spec_walk::<A>(root.spec_secret(), views);
    let mut current = root.duplicate();
    let mut i: usize = 0;
    assert(views.skip(0) =~= views);
    while i < path.len()
        invariant
            i <= path@.len(),
            views == path_view(path@),
            current.wf(),
            soft == A::spec_supports_soft(),
            soft || !has_soft(views),
            whole == spec_walk::<A>(root.spec_secret(), views),
            whole == spec_walk::<A>(current.spec_secret(), views.skip(i as int)),
        decreases path@.len() - i,
    {
        let ghost rest = views.skip(i as int);
        assert(rest[0] == views[i as int]);
        assert(rest.drop_first() =~= views.skip(i + 1));
        match path[i] {
            DeriveJunction::Hard(cc) => {
                let secret = current.secret_bytes();
                let seed = derive_hard_seed::<A>(secret.as_slice(), &cc);
                match A::from_seed_slice(seed.as_slice()) {
                    Ok(pair) => {
                        current = pair;
                    },
                    Err(_) => {
                        return Err(DeriveError::InvalidSeed);
                    },
                }
            },
            DeriveJunction::Soft(cc) => {
                assert(!views[i as int].hard);
                match current.derive_soft(&cc) {
                    Some(pair) => {
                        current = pair;
                    },
                    None => {
                        return Err(DeriveError::InvalidSeed);
                    },
                }
            },
        }
        i += 1;
    }
    Ok(current)
}

/// Two hard steps under one tag hash the same bytes only where they start
/// from the same secret and take the same chain code: what sets two children
/// of one parent apart is the chain code, and the digest is taken over it.
pub proof fn lemma_hard_seed_input_injective(
    tag: Seq<u8>,
    secret_a: Seq<u8>,
    chain_code_a: Seq<u8>,
    secret_b: Seq<u8>,
    chain_code_b: Seq<u8>,
)
    requires
        secret_a.len() == secret_b.len(),
        hard_seed_input(tag, secret_a, chain_code_a) == hard_seed_input(
            tag,
            secret_b,
            chain_code_b,
        ),
    ensures
        secret_a == secret_b,
        chain_code_a == chain_code_b,
{
    let head = prefixed(tag);
    let a = hard_seed_input(tag, secret_a, chain_code_a);
    let b = hard_seed_input(tag, secret_b, chain_code_b);
    assert(a.len() == head.len() + secret_a.len() + chain_code_a.len());
    assert(b.len() == head.len() + secret_b.len() + chain_code_b.len());
    assert forall|i: int| 0 <= i < secret_a.len() implies secret_a[i] == secret_b[i] by {
        assert(a[head.len() + i] == secret_a[i]);
        assert(b[head.len() + i] == secret_b[i]);
    }
    assert(secret_a =~= secret_b);
    assert forall|i: int| 0 <= i < chain_code_a.len() implies chain_code_a[i]
        == chain_code_b[i] by {
        assert(a[head.len() + secret_a.len() + i] == chain_code_a[i]);
        assert(b[head.len() + secret_b.len() + i] == chain_code_b[i]);
    }
    assert(chain_code_a =~= chain_code_b);
}

/// A walk along two paths, one after the other, is the walk along both.
pub proof fn lemma_walk_in_two_parts<A: SchemeAdapter>(
    secret: Seq<u8>,
    first: Seq<JunctionView>,
    second: Seq<JunctionView>,
)
    ensures
        spec_walk::<A>(secret, first + second) == match spec_walk::<A>(secret, first) {
            Ok(middle) => spec_walk::<A>(middle, second),
            Err(e) => Err(e),
        },
    decreases first.len(),
{
    if first.len() == 0 {
        assert(first + second =~= second);
    } else {
        let whole = first + second;
        assert(whole[0] == first[0]);
        assert(whole.drop_first() =~= first.drop_first() + second);
        match spec_step::<A>(secret, first[0]) {
            Ok(next) => {
                lemma_walk_in_two_parts::<A>(next, first.drop_first(), second);
            },
            Err(_) => {},
        }
    }
}

/// Under a scheme without soft keys, a path with a soft junction leads
/// nowhere, wherever the junction stands and whatever the root.
pub proof fn lemma_soft_junction_fails_the_path<A: SchemeAdapter>(
    secret: Seq<u8>,
    path: Seq<JunctionView>,
    at: int,
)
    requires
        !A::spec_supports_soft(),
        0 <= at < path.len(),
        !path[at].hard,
    ensures
        spec_derive::<A>(secret, path) == Err::<Seq<u8>, DeriveError>(DeriveError::SoftKeyInPath),
{
}

/// A walk ends in `SoftKeyInPath` only under a scheme without soft keys and
/// only along a path that holds a soft junction.
pub proof fn lemma_soft_error_needs_soft_junction<A: SchemeAdapter>(
    secret: Seq<u8>,
    path: Seq<JunctionView>,
)
    ensures
        spec_walk::<A>(secret, path) == Err::<Seq<u8>, DeriveError>(DeriveError::SoftKeyInPath)
            ==> !A::spec_supports_soft() && has_soft(path),
    decreases path.len(),
{
    if path.len() > 0 {
        match spec_step::<A>(secret, path[0]) {
            Ok(next) => {
                let rest = path.drop_first();
                lemma_soft_error_needs_soft_junction::<A>(next, rest);
                if has_soft(rest) {
                    let i = choose|i: int| 0 <= i < rest.len() && !(#[trigger] rest[i]).hard;
                    assert(!path[i + 1].hard);
                }
            },
            Err(_) => {
                if !path[0].hard {
                    assert(has_soft(path));
                }
            },
        }
    }
}

} // verus!
