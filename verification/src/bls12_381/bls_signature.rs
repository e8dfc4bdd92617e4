//! Verification of BLS signatures on BLS12-381: signatures and hashed
//! messages on the twist, public keys on the base curve. A signature `s`
//! of the key `k` on the hashed message `h` is valid where
//! `e(g1, -s) e(k, h)` is the one of the target group.

use crate::bignum::{big_clone, big_value};
use crate::bls12_381::{base_modulus, BLS_X};
use crate::bls12_381::pairing::{twisted_frobenius, PairingChip};
use crate::curves::{g1_lift, g1_lower, EqualityWitness, Fq2, G1Affine, G2Affine};
use crate::ecc::{ec_negate, ec_scalar_mul, EcPoint, EccChip};
use crate::errors::{ChipError, Violation};
use crate::fields::FieldChip;
use crate::fields::fp12::fp12_one;
use crate::fields::fp2::Fp2Chip;
use crate::fields::fp::{FieldElement, FpChip};
use crate::fields::vector::{vec_congruent, vec_is_reduced, FieldVector};
use crate::pairing::{g1_value, g2_value, pair_g1_values, pair_g2_values};
use num_bigint::BigInt;
use vstd::prelude::*;

verus! {

/// The chip that verifies signatures with the pairing of `pairing_chip`
/// over the field of `fp_chip`.
pub struct BlsSignatureChip<'chip> {
    pub fp_chip: &'chip FpChip,
    pub pairing_chip: &'chip PairingChip<'chip>,
}

impl<'chip> BlsSignatureChip<'chip> {
    /// The chip over the given field chip and pairing chip.
    pub fn new(fp_chip: &'chip FpChip, pairing_chip: &'chip PairingChip<'chip>) -> (r: Self)
        ensures
            r.fp_chip == fp_chip,
            r.pairing_chip == pairing_chip,
    {
        Self { fp_chip, pairing_chip }
    }

    /// The pairing chip is set up, over the field chip of this chip.
    pub open spec fn wf(&self) -> bool {
        self.pairing_chip.wf() && self.fp_chip == self.pairing_chip.fp_chip
    }

    /// The chip of the quadratic extension.
    pub open spec fn fp2_spec(&self) -> Fp2Chip<'chip> {
        self.pairing_chip.miller_spec().fp2_spec()
    }

    /// The subgroup check on a point `q` of the twist: the image of `q`
    /// under the Frobenius map of the twist is `[x] q`, which for the
    /// negative `x` of this curve is the negative of `[|x|] q`. A multiple
    /// that cannot be formed fails with the assertion that its step broke.
    pub open spec fn in_g2(&self, q: (Seq<int>, Seq<int>)) -> Result<(), ChipError> {
        match ec_scalar_mul(&self.fp2_spec(), q, BLS_X as nat) {
            Err(e) => Err(e),
            Ok(a) => {
                let psi = twisted_frobenius(q);
                let c = ec_negate(base_modulus(), a);
                if vec_congruent(base_modulus(), psi.0, c.0) && vec_congruent(
                    base_modulus(),
                    psi.1,
                    c.1,
                ) {
                    Ok(())
                } else {
                    Err(ChipError::ConstraintViolation(Violation::Subgroup))
                }
            },
        }
    }

    /// Asserts that a point of the twist lies in the prime-order subgroup.
    pub fn assert_in_g2(&self, q: &EcPoint<FieldVector>) -> (r: Result<(), ChipError>)
        requires
            self.wf(),
            self.pairing_chip.miller_spec().g2_wf(q),
        ensures
            r == self.in_g2(g2_value(q)),
    {
        let fp2 = self.pairing_chip.miller().fp2();
        let g2 = EccChip::new(&fp2);
        let a = match g2.scalar_mul(q, BLS_X) {
            Ok(v) => v,
            Err(e) => {
                return Err(e);
            },
        };
        let c = g2.negate(&a);
        let psi = self.pairing_chip.twisted_frobenius(q);
        if g2.is_equal(&psi, &c) {
            Ok(())
        } else {
            Err(ChipError::ConstraintViolation(Violation::Subgroup))
        }
    }

    /// What a signature must pass: the range check of its limbs, a reduced
    /// x coordinate, the equation of the twist and the subgroup check.
    pub open spec fn signature_check(&self, s: (Seq<int>, Seq<int>)) -> Result<(), ChipError> {
        if !self.pairing_chip.g2_in_range(s) {
            Err(ChipError::ConstraintViolation(Violation::FieldRange))
        } else if !vec_is_reduced(base_modulus(), s.0) {
            Err(ChipError::ConstraintViolation(Violation::FieldReduced))
        } else if !self.pairing_chip.g2_on_curve(s) {
            Err(ChipError::ConstraintViolation(Violation::OnCurve))
        } else {
            self.in_g2(s)
        }
    }

    /// Whether both coordinates of a point of the base curve pass the range
    /// check of the limbs.
    pub open spec fn g1_in_range(&self, k: (int, int)) -> bool {
        let span = vstd::arithmetic::power::pow(
            self.pairing_chip.fp_chip.base(),
            self.pairing_chip.fp_chip.num_limbs as nat,
        );
        0 <= k.0 < span && 0 <= k.1 < span
    }

    /// What a public key must pass: the range check of its limbs, a reduced
    /// x coordinate and the equation of the curve.
    pub open spec fn pubkey_check(&self, k: (int, int)) -> Result<(), ChipError> {
        if !self.g1_in_range(k) {
            Err(ChipError::ConstraintViolation(Violation::FieldRange))
        } else if !(0 <= k.0 < base_modulus()) {
            Err(ChipError::ConstraintViolation(Violation::FieldReduced))
        } else if !self.pairing_chip.g1_on_curve(k) {
            Err(ChipError::ConstraintViolation(Violation::OnCurve))
        } else {
            Ok(())
        }
    }

    /// What the generator and the hashed message must pass: the range
    /// check and the curve equation for both, and the subgroup check for the
    /// hashed message.
    pub open spec fn fixed_points_check(&self, g1: (int, int), hash: (Seq<int>, Seq<int>)) -> Result<
        (),
        ChipError,
    > {
        if !self.g1_in_range(g1) {
            Err(ChipError::ConstraintViolation(Violation::FieldRange))
        } else if !self.pairing_chip.g1_on_curve(g1) {
            Err(ChipError::ConstraintViolation(Violation::OnCurve))
        } else if !self.pairing_chip.g2_in_range(hash) {
            Err(ChipError::ConstraintViolation(Violation::FieldRange))
        } else if !self.pairing_chip.g2_on_curve(hash) {
            Err(ChipError::ConstraintViolation(Violation::OnCurve))
        } else {
            self.in_g2(hash)
        }
    }

    /// The pairing product `e(g1, -sig) e(key, hash)`.
    pub open spec fn pairing_product(
        &self,
        g1: (int, int),
        sig: (Seq<int>, Seq<int>),
        key: (int, int),
        hash: (Seq<int>, Seq<int>),
    ) -> Result<Seq<int>, ChipError> {
        self.pairing_chip.multi_pairing_spec(
            seq![ec_negate(base_modulus(), sig), hash],
            seq![g1, key],
        )
    }

    /// The value of the verification: the pairing product
    /// `e(g1, -s) e(k, h)` for the signature `s` and the public key `k`,
    /// after every witness has passed its checks.
    pub open spec fn verify_spec(
        &self,
        g1: (int, int),
        sig: (Seq<int>, Seq<int>),
        key: (int, int),
        hash: (Seq<int>, Seq<int>),
    ) -> Result<Seq<int>, ChipError> {
        match self.fixed_points_check(g1, hash) {
            Err(e) => Err(e),
            Ok(()) => match self.signature_check(sig) {
                Err(e) => Err(e),
                Ok(()) => match self.pubkey_check(key) {
                    Err(e) => Err(e),
                    Ok(()) => self.pairing_product(g1, sig, key, hash),
                },
            },
        }
    }

    /// The public key of the secret key `sk >= 1`: the multiple `[sk] g1` of
    /// the generator, which must pass the range check of the limbs.
    pub open spec fn public_key_spec(&self, g1: (int, int), sk: nat) -> Result<
        (int, int),
        ChipError,
    > {
        if !self.g1_in_range(g1) {
            Err(ChipError::ConstraintViolation(Violation::FieldRange))
        } else {
            match ec_scalar_mul(self.pairing_chip.fp_chip, g1_lift(g1), sk) {
                Err(e) => Err(e),
                Ok(k) => Ok(g1_lower(k)),
            }
        }
    }

    /// The signature of the secret key `sk >= 1` on a hashed message: the
    /// multiple `[sk] h` of the hashed message, which must pass the range
    /// check of the limbs.
    pub open spec fn signature_spec(&self, hash: (Seq<int>, Seq<int>), sk: nat) -> Result<
        (Seq<int>, Seq<int>),
        ChipError,
    > {
        if !self.pairing_chip.g2_in_range(hash) {
            Err(ChipError::ConstraintViolation(Violation::FieldRange))
        } else {
            ec_scalar_mul(&self.fp2_spec(), hash, sk)
        }
    }

    /// The public key that belongs to a secret key.
    pub fn public_key(&self, g1: &G1Affine, sk: &BigInt) -> (r: Result<G1Affine, ChipError>)
        requires
            self.wf(),
            big_value(*sk) >= 1,
        ensures
            match r {
                Ok(k) => self.public_key_spec(g1@, big_value(*sk) as nat) == Ok::<
                    (int, int),
                    ChipError,
                >(k@),
                Err(e) => self.public_key_spec(g1@, big_value(*sk) as nat) == Err::<
                    (int, int),
                    ChipError,
                >(e),
            },
    {
        let ecc = EccChip::new(self.pairing_chip.fp_chip);
        let base = match self.pairing_chip.load_private_g1_unchecked(g1) {
            Ok(p) => p,
            Err(e) => {
                return Err(e);
            },
        };
        assert(ecc.value(&base) == g1_lift(g1@));
        match ecc.scalar_mult(&base, sk) {
            Ok(k) => {
                assert(g1_value(&k) == g1_lower(ecc.value(&k)));
                Ok(G1Affine { x: big_clone(&k.x.0.value), y: big_clone(&k.y.0.value) })
            },
            Err(e) => Err(e),
        }
    }

    /// The signature of a secret key on a hashed message.
    pub fn sign(&self, msghash: &G2Affine, sk: &BigInt) -> (r: Result<G2Affine, ChipError>)
        requires
            self.wf(),
            big_value(*sk) >= 1,
        ensures
            match r {
                Ok(s) => self.signature_spec(msghash@, big_value(*sk) as nat) == Ok::<
                    (Seq<int>, Seq<int>),
                    ChipError,
                >(s@),
                Err(e) => self.signature_spec(msghash@, big_value(*sk) as nat) == Err::<
                    (Seq<int>, Seq<int>),
                    ChipError,
                >(e),
            },
    {
        let fp2 = self.pairing_chip.miller().fp2();
        let ecc = EccChip::new(&fp2);
        let base = match self.pairing_chip.load_private_g2_unchecked(msghash) {
            Ok(q) => q,
            Err(e) => {
                return Err(e);
            },
        };
        match ecc.scalar_mult(&base, sk) {
            Ok(s) => {
                assert(s.x.0@[0].wf(fp2.fp_chip) && s.x.0@[1].wf(fp2.fp_chip));
                let r = G2Affine {
                    x: Fq2 { c0: big_clone(&s.x.0[0].0.value), c1: big_clone(&s.x.0[1].0.value) },
                    y: Fq2 { c0: big_clone(&s.y.0[0].0.value), c1: big_clone(&s.y.0[1].0.value) },
                };
                assert(r.x@ =~= s.x@);
                assert(r.y@ =~= s.y@);
                Ok(r)
            },
            Err(e) => Err(e),
        }
    }

    /// Loads a signature and runs its checks.
    fn load_signature(&self, s: &G2Affine) -> (r: Result<EcPoint<FieldVector>, ChipError>)
        requires
            self.wf(),
        ensures
            match r {
                Ok(q) => self.signature_check(s@) is Ok && g2_value(&q) == s@
                    && self.pairing_chip.miller_spec().g2_wf(&q),
                Err(e) => self.signature_check(s@) == Err::<(), ChipError>(e),
            },
    {
        let fp2 = self.pairing_chip.miller().fp2();
        let q = match self.pairing_chip.load_private_g2_unchecked(s) {
            Ok(v) => v,
            Err(e) => {
                return Err(e);
            },
        };
        match fp2.enforce_less_than(&q.x) {
            Ok(()) => {},
            Err(e) => {
                return Err(e);
            },
        }
        match self.pairing_chip.assert_g2_on_curve(&q) {
            Ok(()) => {},
            Err(e) => {
                return Err(e);
            },
        }
        match self.assert_in_g2(&q) {
            Ok(()) => Ok(q),
            Err(e) => Err(e),
        }
    }

    /// Loads a public key and runs its checks.
    fn load_pubkey(&self, k: &G1Affine) -> (r: Result<EcPoint<FieldElement>, ChipError>)
        requires
            self.wf(),
        ensures
            match r {
                Ok(p) => self.pubkey_check(k@) is Ok && g1_value(&p) == k@
                    && self.pairing_chip.miller_spec().g1_wf(&p),
                Err(e) => self.pubkey_check(k@) == Err::<(), ChipError>(e),
            },
    {
        let fp = self.pairing_chip.fp_chip;
        let p = match self.pairing_chip.load_private_g1_unchecked(k) {
            Ok(v) => v,
            Err(e) => {
                return Err(e);
            },
        };
        match fp.enforce_less_than(&p.x) {
            Ok(()) => {},
            Err(e) => {
                proof {
                    vstd::arithmetic::power::lemma_pow_positive(
                        fp.base(),
                        fp.num_limbs as nat,
                    );
                }
                return Err(e);
            },
        }
        match self.pairing_chip.assert_g1_on_curve(&p) {
            Ok(()) => Ok(p),
            Err(e) => Err(e),
        }
    }

    /// Loads the generator and the hashed message and runs their checks.
    fn load_fixed_points(&self, g1: &G1Affine, msghash: &G2Affine) -> (r: Result<
        (EcPoint<FieldElement>, EcPoint<FieldVector>),
        ChipError,
    >)
        requires
            self.wf(),
        ensures
            match r {
                Ok(s) => self.fixed_points_check(g1@, msghash@) is Ok && g1_value(&s.0) == g1@
                    && g2_value(&s.1) == msghash@ && self.pairing_chip.miller_spec().g1_wf(&s.0)
                    && self.pairing_chip.miller_spec().g2_wf(&s.1),
                Err(e) => self.fixed_points_check(g1@, msghash@) == Err::<(), ChipError>(e),
            },
    {
        let pairing = self.pairing_chip;
        let g1_assigned = match pairing.load_private_g1_unchecked(g1) {
            Ok(p) => p,
            Err(e) => {
                return Err(e);
            },
        };
        match pairing.assert_g1_on_curve(&g1_assigned) {
            Ok(()) => {},
            Err(e) => {
                return Err(e);
            },
        }
        let hash_assigned = match pairing.load_private_g2_unchecked(msghash) {
            Ok(q) => q,
            Err(e) => {
                return Err(e);
            },
        };
        match pairing.assert_g2_on_curve(&hash_assigned) {
            Ok(()) => {},
            Err(e) => {
                return Err(e);
            },
        }
        match self.assert_in_g2(&hash_assigned) {
            Ok(()) => Ok((g1_assigned, hash_assigned)),
            Err(e) => Err(e),
        }
    }

    /// The pairing product `e(g1, -sig) e(key, hash)` of loaded points, and
    /// whether it is the one of the target group.
    pub fn verify_assigned(
        &self,
        g1: &EcPoint<FieldElement>,
        sig: &EcPoint<FieldVector>,
        key: &EcPoint<FieldElement>,
        hash: &EcPoint<FieldVector>,
    ) -> (r: Result<EqualityWitness, ChipError>)
        requires
            self.wf(),
            self.pairing_chip.miller_spec().g1_wf(g1),
            self.pairing_chip.miller_spec().g2_wf(sig),
            self.pairing_chip.miller_spec().g1_wf(key),
            self.pairing_chip.miller_spec().g2_wf(hash),
        ensures
            self.witness_agrees(
                r,
                self.pairing_product(g1_value(g1), g2_value(sig), g1_value(key), g2_value(hash)),
            ),
    {
        let pairing = self.pairing_chip;
        let miller = pairing.miller();
        let fp2 = miller.fp2();
        let fp12 = miller.fp12();
        let g2 = EccChip::new(&fp2);
        let neg_sig = g2.negate(sig);
        let mut pairs: Vec<(&EcPoint<FieldElement>, &EcPoint<FieldVector>)> = Vec::new();
        pairs.push((g1, &neg_sig));
        pairs.push((key, hash));
        assert(pair_g1_values(pairs@) =~= seq![g1_value(g1), g1_value(key)]);
        assert(pair_g2_values(pairs@) =~= seq![g2_value(&neg_sig), g2_value(hash)]);
        let looped = match pairing.multi_miller_loop(&pairs) {
            Ok(f) => f,
            Err(e) => {
                return Err(e);
            },
        };
        let value = pairing.final_exp(&looped);
        let one = fp12.one();
        let is_identity = fp12.is_equal(&value, &one);
        Ok(EqualityWitness { value, is_identity })
    }

    /// The outcome `r` is the outcome `m` of the mathematics: the same
    /// value, with the flag that tells whether it is the one, or the same
    /// error.
    pub open spec fn witness_agrees(
        &self,
        r: Result<EqualityWitness, ChipError>,
        m: Result<Seq<int>, ChipError>,
    ) -> bool {
        match r {
            Ok(w) => {
                &&& m is Ok
                &&& m->Ok_0 == w.value@
                &&& w.is_identity == vec_congruent(base_modulus(), w.value@, fp12_one())
                &&& w.value.wf(self.fp_chip)
                &&& w.value.0@.len() == 12
            },
            Err(e) => m is Err && m->Err_0 == e,
        }
    }

    /// Verifies the signature of the public key on the hashed message:
    /// `e(g1, s) = e(k, h)`, checked as `e(g1, -s) e(k, h) = 1` with one
    /// Miller loop over both pairs and one final exponentiation.
    pub fn bls_signature_verify(
        &self,
        g1: &G1Affine,
        signature: &G2Affine,
        pubkey: &G1Affine,
        msghash: &G2Affine,
    ) -> (r: Result<EqualityWitness, ChipError>)
        requires
            self.wf(),
        ensures
            self.witness_agrees(r, self.verify_spec(g1@, signature@, pubkey@, msghash@)),
    {
        let (g1_assigned, hash_assigned) = match self.load_fixed_points(g1, msghash) {
            Ok(s) => s,
            Err(e) => {
                return Err(e);
            },
        };
        let signature_assigned = match self.load_signature(signature) {
            Ok(q) => q,
            Err(e) => {
                return Err(e);
            },
        };
        let pubkey_assigned = match self.load_pubkey(pubkey) {
            Ok(p) => p,
            Err(e) => {
                return Err(e);
            },
        };
        self.verify_assigned(&g1_assigned, &signature_assigned, &pubkey_assigned, &hash_assigned)
    }
}

} // verus!
