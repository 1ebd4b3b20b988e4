//! Stable animation-target identifiers.
//!
//! A target identifier is derived deterministically from a root-to-target
//! path of names: a fixed namespace followed by each name's bytes is fed to
//! SHA-1, and the first 16 digest bytes, with the version and variant bits
//! of a name-based UUID set, form the 128-bit identifier. Two equal paths
//! always yield the same identifier, whatever armature or clip produced
//! them.

use vstd::prelude::*;

verus! {

/// The UUID namespace of animation targets (e.g. bones), as a packed
/// 128-bit big-endian value; [`namespace_bytes`] lists the same sixteen
/// bytes.
pub const ANIMATION_TARGET_NAMESPACE: u128 = 0x3179f519d9274ff2b5966fd077023911;

/// The sixteen big-endian bytes of [`ANIMATION_TARGET_NAMESPACE`].
pub open spec fn namespace_bytes() -> Seq<u8> {
    seq![0x31u8, 0x79, 0xf5, 0x19, 0xd9, 0x27, 0x4f, 0xf2, 0xb5, 0x96, 0x6f, 0xd0, 0x77, 0x02, 0x39, 0x11]
}

/// The SHA-1 digest (20 bytes) of a byte string.
pub uninterp spec fn sha1_of(data: Seq<u8>) -> Seq<u8>;

/// Relies on sha1_smol's `Sha1::update` and `Digest::bytes`: the 20-byte
/// SHA-1 digest of the input, a function of the input bytes alone.
#[verifier::external_body]
fn sha1_digest(data: &Vec<u8>) -> (r: Vec<u8>)
    ensures
        r@ == sha1_of(data@),
        r@.len() == 20,
{
    let mut hasher = sha1_smol::Sha1::new();
    hasher.update(data.as_slice());
    hasher.digest().bytes().to_vec()
}

/// The concatenation of a sequence of byte strings, in order.
pub open spec fn names_bytes(names: Seq<Seq<u8>>) -> Seq<u8>
    decreases names.len(),
{
    if names.len() == 0 {
        Seq::empty()
    } else {
        names_bytes(names.drop_last()) + names.last()
    }
}

/// The identifier packed from a 20-byte digest: the first 16 bytes,
/// big-endian, with the four version bits of byte 6 set to 5 and the two
/// variant bits of byte 8 set to the RFC variant.
pub open spec fn id_from_digest(d: Seq<u8>) -> u128
    recommends
        d.len() >= 16,
{
    ((d[0] as u128) << 120) | ((d[1] as u128) << 112) | ((d[2] as u128) << 104) | ((d[3] as u128)
        << 96) | ((d[4] as u128) << 88) | ((d[5] as u128) << 80) | ((((d[6] & 0x0f) | 0x50) as u128)
        << 72) | ((d[7] as u128) << 64) | ((((d[8] & 0x3f) | 0x80) as u128) << 56) | ((d[9] as u128)
        << 48) | ((d[10] as u128) << 40) | ((d[11] as u128) << 32) | ((d[12] as u128) << 24) | ((
    d[13] as u128) << 16) | ((d[14] as u128) << 8) | (d[15] as u128)
}

/// The identifier derived from a path of names: the digest of the namespace
/// bytes followed by every name's bytes, packed by [`id_from_digest`].
pub open spec fn target_id_of(names: Seq<Seq<u8>>) -> u128 {
    id_from_digest(sha1_of(namespace_bytes() + names_bytes(names)))
}

/// A unique, stable identifier for an animation target (e.g. a bone in a
/// skinned mesh).
///
/// Clips and targets both use this to refer to the object to be animated.
/// It is derived only from the name path, so any clip that animates a bone
/// path drives any armature with an equally named bone path.
#[derive(Clone, Copy, PartialEq, Eq, Structural, PartialOrd, Ord, Hash, Debug)]
pub struct AnimationTargetId {
    /// The packed 128-bit identifier.
    pub id: u128,
}

impl AnimationTargetId {
    /// Creates a new identifier by hashing a list of names (each given as
    /// its bytes).
    ///
    /// Typically, this is the path from the animation root to the target
    /// (e.g. bone) that is to be animated.
    pub fn from_names(names: &Vec<Vec<u8>>) -> (r: AnimationTargetId)
        ensures
            r.id == target_id_of(names.deep_view()),
    {
        let ghost all_names: Seq<Seq<u8>> = names.deep_view();
        let mut data: Vec<u8> = Vec::new();
        data.push(0x31);
        data.push(0x79);
        data.push(0xf5);
        data.push(0x19);
        data.push(0xd9);
        data.push(0x27);
        data.push(0x4f);
        data.push(0xf2);
        data.push(0xb5);
        data.push(0x96);
        data.push(0x6f);
        data.push(0xd0);
        data.push(0x77);
        data.push(0x02);
        data.push(0x39);
        data.push(0x11);
        proof {
            assert(data@ =~= namespace_bytes());
        }
        let mut i: usize = 0;
        while i < names.len()
            invariant
                i <= names.len(),
                all_names == names.deep_view(),
                all_names.len() == names.len(),
                data@ == namespace_bytes() + names_bytes(all_names.take(i as int)),
            decreases names.len() - i,
        {
            let name = &names[i];
            let mut j: usize = 0;
            while j < name.len()
                invariant
                    j <= name.len(),
                    i < names.len(),
                    all_names == names.deep_view(),
                    all_names.len() == names.len(),
                    name@ == all_names[i as int],
                    data@ == namespace_bytes() + names_bytes(all_names.take(i as int))
                        + name@.take(j as int),
                decreases name.len() - j,
            {
                data.push(name[j]);
                proof {
                    assert(name@.take(j + 1) =~= name@.take(j as int) + seq![name@[j as int]]);
                }
                j = j + 1;
            }
            proof {
                assert(name@.take(name@.len() as int) =~= name@);
                assert(all_names.take(i + 1).drop_last() =~= all_names.take(i as int));
                assert(names_bytes(all_names.take(i + 1)) == names_bytes(all_names.take(i as int))
                    + all_names[i as int]);
            }
            i = i + 1;
        }
        proof {
            assert(all_names.take(all_names.len() as int) =~= all_names);
        }
        let digest = sha1_digest(&data);
        let b6: u8 = (digest[6] & 0x0f) | 0x50;
        let b8: u8 = (digest[8] & 0x3f) | 0x80;
        let id: u128 = ((digest[0] as u128) << 120) | ((digest[1] as u128) << 112) | ((
        digest[2] as u128) << 104) | ((digest[3] as u128) << 96) | ((digest[4] as u128) << 88) | ((
        digest[5] as u128) << 80) | ((b6 as u128) << 72) | ((digest[7] as u128) << 64) | ((
        b8 as u128) << 56) | ((digest[9] as u128) << 48) | ((digest[10] as u128) << 40) | ((
        digest[11] as u128) << 32) | ((digest[12] as u128) << 24) | ((digest[13] as u128) << 16) | (
        (digest[14] as u128) << 8) | (digest[15] as u128);
        AnimationTargetId { id }
    }

    /// Creates a new identifier by hashing a single name.
    pub fn from_name(name: &Vec<u8>) -> (r: AnimationTargetId)
        ensures
            r.id == target_id_of(seq![name@]),
    {
        let mut copy: Vec<u8> = Vec::new();
        let mut j: usize = 0;
        while j < name.len()
            invariant
                j <= name.len(),
                copy@ == name@.take(j as int),
            decreases name.len() - j,
        {
            copy.push(name[j]);
            proof {
                assert(name@.take(j + 1) =~= name@.take(j as int) + seq![name@[j as int]]);
            }
            j = j + 1;
        }
        proof {
            assert(name@.take(name@.len() as int) =~= name@);
        }
        let mut names: Vec<Vec<u8>> = Vec::new();
        names.push(copy);
        proof {
            assert(names.deep_view() =~~= seq![name@]);
        }
        AnimationTargetId::from_names(&names)
    }
}

} // verus!
