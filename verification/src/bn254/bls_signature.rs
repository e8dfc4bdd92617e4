//! Verification of BLS signatures on BN254: signatures and hashed messages
//! on the twist, public keys on the base curve. A signature `s` of the key
//! `k` on the hashed message `h` is valid where
//! `e(g1, -s) e(k, h)` is the one of the target group.

use crate::bignum::{big_clone, big_value};
use crate::bn254::{base_modulus, BN_X};
use crate::bn254::pairing::{twisted_frobenius, PairingChip};
use crate::curves::{g1_lift, g1_lower, EqualityWitness, Fq2, G1Affine, G2Affine};
use crate::ecc::{ec_add_unequal, ec_negate, ec_scalar_mul, scalar_values, EcPoint, EccChip};
use crate::errors::{ChipError, Violation};
use crate::fields::FieldChip;
use crate::fields::fp12::fp12_one;
use crate::fields::fp2::Fp2Chip;
use crate::fields::fp::{FieldElement, FpChip};
use crate::fields::vector::{vec_congruent, vec_is_reduced, FieldVector};
use crate::pairing::{g1_value, g2_value, pair_g1_values, pair_g2_values};
use num_bigint::BigInt;
use vstd::prelude::*;

verus! {

/// The chip that verifies signatures with the pairing of `pairing_chip`
/// over the field of `fp_chip`.
pub struct BlsSignatureChip<'chip> {
    pub fp_chip: &'chip FpChip,
    pub pairing_chip: &'chip PairingChip<'chip>,
}

/// The witnesses of points of the twist as pairs of coefficient vectors.
pub open spec fn g2_witnesses(points: Seq<G2Affine>) -> Seq<(Seq<int>, Seq<int>)> {
    Seq::new(points.len(), |j: int| points[j]@)
}

/// The witnesses of points of the base curve as pairs of integers.
pub open spec fn g1_witnesses(points: Seq<G1Affine>) -> Seq<(int, int)> {
    Seq::new(points.len(), |j: int| points[j]@)
}

impl<'chip> BlsSignatureChip<'chip> {
    /// The chip over the given field chip and pairing chip.
    pub fn new(fp_chip: &'chip FpChip, pairing_chip: &'chip PairingChip<'chip>) -> (r: Self)
        ensures
            r.fp_chip == fp_chip,
            r.pairing_chip == pairing_chip,
    {
        Self { fp_chip, pairing_chip }
    }

    /// The pairing chip is set up, over the field chip of this chip.
    pub open spec fn wf(&self) -> bool {
        self.pairing_chip.wf() && self.fp_chip == self.pairing_chip.fp_chip
    }

    /// The chip of the quadratic extension.
    pub open spec fn fp2_spec(&self) -> Fp2Chip<'chip> {
        self.pairing_chip.miller_spec().fp2_spec()
    }

    /// The subgroup check on a point `q` of the twist: the image of `q`
    /// under the Frobenius map of the twist is `[6 x^2] q`, computed as
    /// `[6]([x]([x] q))`. A multiple that cannot be formed fails with the
    /// assertion that its step broke.
    pub open spec fn in_g2(&self, q: (Seq<int>, Seq<int>)) -> Result<(), ChipError> {
        match ec_scalar_mul(&self.fp2_spec(), q, BN_X as nat) {
            Err(e) => Err(e),
            Ok(a) => match ec_scalar_mul(&self.fp2_spec(), a, BN_X as nat) {
                Err(e) => Err(e),
                Ok(b) => match ec_scalar_mul(&self.fp2_spec(), b, 6) {
                    Err(e) => Err(e),
                    Ok(c) => {
                        let psi = twisted_frobenius(q);
                        if vec_congruent(base_modulus(), psi.0, c.0) && vec_congruent(
                            base_modulus(),
                            psi.1,
                            c.1,
                        ) {
                            Ok(())
                        } else {
                            Err(ChipError::ConstraintViolation(Violation::Subgroup))
                        }
                    },
                },
            },
        }
    }

    /// Asserts that a point of the twist lies in the prime-order subgroup.
    pub fn assert_in_g2(&self, q: &EcPoint<FieldVector>) -> (r: Result<(), ChipError>)
        requires
            self.wf(),
            self.pairing_chip.miller_spec().g2_wf(q),
        ensures
            r == self.in_g2(g2_value(q)),
    {
        let fp2 = self.pairing_chip.miller().fp2();
        let g2 = EccChip::new(&fp2);
        let a = match g2.scalar_mul(q, BN_X) {
            Ok(v) => v,
            Err(e) => {
                return Err(e);
            },
        };
        let b = match g2.scalar_mul(&a, BN_X) {
            Ok(v) => v,
            Err(e) => {
                return Err(e);
            },
        };
        let c = match g2.scalar_mul(&b, 6) {
            Ok(v) => v,
            Err(e) => {
                return Err(e);
            },
        };
        let psi = self.pairing_chip.twisted_frobenius(q);
        if g2.is_equal(&psi, &c) {
            Ok(())
        } else {
            Err(ChipError::ConstraintViolation(Violation::Subgroup))
        }
    }

    /// What a signature must pass before it is folded: the range check of
    /// its limbs, a reduced x coordinate, the equation of the twist and the
    /// subgroup check.
    pub open spec fn signature_check(&self, s: (Seq<int>, Seq<int>)) -> Result<(), ChipError> {
        if !self.pairing_chip.g2_in_range(s) {
            Err(ChipError::ConstraintViolation(Violation::FieldRange))
        } else if !vec_is_reduced(base_modulus(), s.0) {
            Err(ChipError::ConstraintViolation(Violation::FieldReduced))
        } else if !self.pairing_chip.g2_on_curve(s) {
            Err(ChipError::ConstraintViolation(Violation::OnCurve))
        } else {
            self.in_g2(s)
        }
    }

    /// Whether both coordinates of a point of the base curve pass the range
    /// check of the limbs.
    pub open spec fn g1_in_range(&self, k: (int, int)) -> bool {
        let span = vstd::arithmetic::power::pow(
            self.pairing_chip.fp_chip.base(),
            self.pairing_chip.fp_chip.num_limbs as nat,
        );
        0 <= k.0 < span && 0 <= k.1 < span
    }

    /// What a public key must pass before it is folded: the range check of
    /// its limbs, a reduced x coordinate and the equation of the curve.
    pub open spec fn pubkey_check(&self, k: (int, int)) -> Result<(), ChipError> {
        if !self.g1_in_range(k) {
            Err(ChipError::ConstraintViolation(Violation::FieldRange))
        } else if !(0 <= k.0 < base_modulus()) {
            Err(ChipError::ConstraintViolation(Violation::FieldReduced))
        } else if !self.pairing_chip.g1_on_curve(k) {
            Err(ChipError::ConstraintViolation(Violation::OnCurve))
        } else {
            Ok(())
        }
    }

    /// The sum of the first `n` signatures as a fold from the left: the
    /// first is taken as it is, and each further one is added to the sum so
    /// far, with the caller vouching that their x coordinates differ. Each
    /// signature is checked when its turn comes.
    pub open spec fn aggregate_signatures(&self, sigs: Seq<(Seq<int>, Seq<int>)>, n: nat) -> Result<
        (Seq<int>, Seq<int>),
        ChipError,
    >
        decreases n,
    {
        if n == 0 {
            Err(ChipError::InputShape)
        } else if n == 1 {
            match self.signature_check(sigs[0]) {
                Err(e) => Err(e),
                Ok(()) => Ok(sigs[0]),
            }
        } else {
            match self.aggregate_signatures(sigs, (n - 1) as nat) {
                Err(e) => Err(e),
                Ok(sum) => match self.signature_check(sigs[n - 1]) {
                    Err(e) => Err(e),
                    Ok(()) => ec_add_unequal(&self.fp2_spec(), sum, sigs[n - 1], false),
                },
            }
        }
    }

    /// The sum of the first `n` public keys as a fold from the left, like
    /// that of the signatures.
    pub open spec fn aggregate_pubkeys(&self, keys: Seq<(int, int)>, n: nat) -> Result<
        (int, int),
        ChipError,
    >
        decreases n,
    {
        if n == 0 {
            Err(ChipError::InputShape)
        } else if n == 1 {
            match self.pubkey_check(keys[0]) {
                Err(e) => Err(e),
                Ok(()) => Ok(keys[0]),
            }
        } else {
            match self.aggregate_pubkeys(keys, (n - 1) as nat) {
                Err(e) => Err(e),
                Ok(sum) => match self.pubkey_check(keys[n - 1]) {
                    Err(e) => Err(e),
                    Ok(()) => match ec_add_unequal(
                        self.pairing_chip.fp_chip,
                        g1_lift(sum),
                        g1_lift(keys[n - 1]),
                        false,
                    ) {
                        Err(e) => Err(e),
                        Ok(next) => Ok(g1_lower(next)),
                    },
                },
            }
        }
    }

    /// An error in the fold of the signatures stays.
    pub proof fn lemma_aggregate_signatures_stays(
        &self,
        sigs: Seq<(Seq<int>, Seq<int>)>,
        n: nat,
        m: nat,
    )
        requires
            1 <= n <= m,
            self.aggregate_signatures(sigs, n) is Err,
        ensures
            self.aggregate_signatures(sigs, m) == self.aggregate_signatures(sigs, n),
        decreases m,
    {
        if n < m {
            self.lemma_aggregate_signatures_stays(sigs, n, (m - 1) as nat);
        }
    }

    /// An error in the fold of the public keys stays.
    pub proof fn lemma_aggregate_pubkeys_stays(&self, keys: Seq<(int, int)>, n: nat, m: nat)
        requires
            1 <= n <= m,
            self.aggregate_pubkeys(keys, n) is Err,
        ensures
            self.aggregate_pubkeys(keys, m) == self.aggregate_pubkeys(keys, n),
        decreases m,
    {
        if n < m {
            self.lemma_aggregate_pubkeys_stays(keys, n, (m - 1) as nat);
        }
    }

    /// What the generator and the hashed message must pass: the range
    /// check and the curve equation for both, and the subgroup check for the
    /// hashed message.
    pub open spec fn fixed_points_check(&self, g1: (int, int), hash: (Seq<int>, Seq<int>)) -> Result<
        (),
        ChipError,
    > {
        if !self.g1_in_range(g1) {
            Err(ChipError::ConstraintViolation(Violation::FieldRange))
        } else if !self.pairing_chip.g1_on_curve(g1) {
            Err(ChipError::ConstraintViolation(Violation::OnCurve))
        } else if !self.pairing_chip.g2_in_range(hash) {
            Err(ChipError::ConstraintViolation(Violation::FieldRange))
        } else if !self.pairing_chip.g2_on_curve(hash) {
            Err(ChipError::ConstraintViolation(Violation::OnCurve))
        } else {
            self.in_g2(hash)
        }
    }

    /// The pairing product `e(g1, -sig) e(key, hash)`.
    pub open spec fn pairing_product(
        &self,
        g1: (int, int),
        sig: (Seq<int>, Seq<int>),
        key: (int, int),
        hash: (Seq<int>, Seq<int>),
    ) -> Result<Seq<int>, ChipError> {
        self.pairing_chip.multi_pairing_spec(
            seq![ec_negate(base_modulus(), sig), hash],
            seq![g1, key],
        )
    }

    /// The value of the verification: the pairing product
    /// `e(g1, -s) e(k, h)` for the sums `s` of the signatures and `k` of the
    /// public keys, after every witness has passed its checks. Lists that
    /// are empty or differ in length are refused before anything is loaded.
    pub open spec fn verify_spec(
        &self,
        g1: (int, int),
        sigs: Seq<(Seq<int>, Seq<int>)>,
        keys: Seq<(int, int)>,
        hash: (Seq<int>, Seq<int>),
    ) -> Result<Seq<int>, ChipError> {
        if sigs.len() != keys.len() || sigs.len() == 0 {
            Err(ChipError::InputShape)
        } else {
            match self.fixed_points_check(g1, hash) {
                Err(e) => Err(e),
                Ok(()) => match self.aggregate_signatures(sigs, sigs.len()) {
                    Err(e) => Err(e),
                    Ok(sig) => match self.aggregate_pubkeys(keys, keys.len()) {
                        Err(e) => Err(e),
                        Ok(key) => self.pairing_product(g1, sig, key, hash),
                    },
                },
            }
        }
    }

    /// The aggregate check sees the signatures and the public keys through
    /// their sums alone: where every witness passes its checks, the value is
    /// the pairing product `e(g1, -s) e(k, h)` of the sum `s` of the
    /// signatures and the sum `k` of the public keys.
    pub proof fn lemma_verify_is_product_of_sums(
        &self,
        g1: (int, int),
        sigs: Seq<(Seq<int>, Seq<int>)>,
        keys: Seq<(int, int)>,
        hash: (Seq<int>, Seq<int>),
    )
        requires
            sigs.len() == keys.len(),
            sigs.len() > 0,
            self.fixed_points_check(g1, hash) is Ok,
            self.aggregate_signatures(sigs, sigs.len()) is Ok,
            self.aggregate_pubkeys(keys, keys.len()) is Ok,
        ensures
            self.verify_spec(g1, sigs, keys, hash) == self.pairing_product(
                g1,
                self.aggregate_signatures(sigs, sigs.len())->Ok_0,
                self.aggregate_pubkeys(keys, keys.len())->Ok_0,
                hash,
            ),
    {
    }

    /// With one signature and one public key the aggregate check is the
    /// check of a single signature: the checks of the fixed points, of the
    /// signature and of the key, and then the pairing product of the four
    /// points.
    pub proof fn lemma_single_signature(
        &self,
        g1: (int, int),
        sig: (Seq<int>, Seq<int>),
        key: (int, int),
        hash: (Seq<int>, Seq<int>),
    )
        ensures
            self.verify_spec(g1, seq![sig], seq![key], hash) == (match self.fixed_points_check(
                g1,
                hash,
            ) {
                Err(e) => Err(e),
                Ok(()) => match self.signature_check(sig) {
                    Err(e) => Err(e),
                    Ok(()) => match self.pubkey_check(key) {
                        Err(e) => Err(e),
                        Ok(()) => self.pairing_product(g1, sig, key, hash),
                    },
                },
            }),
    {
        assert(seq![sig][0] == sig);
        assert(seq![key][0] == key);
    }

    /// The public key of the secret key `sk >= 1`: the multiple `[sk] g1` of
    /// the generator, which must pass the range check of the limbs.
    pub open spec fn public_key_spec(&self, g1: (int, int), sk: nat) -> Result<
        (int, int),
        ChipError,
    > {
        if !self.g1_in_range(g1) {
            Err(ChipError::ConstraintViolation(Violation::FieldRange))
        } else {
            match ec_scalar_mul(self.pairing_chip.fp_chip, g1_lift(g1), sk) {
                Err(e) => Err(e),
                Ok(k) => Ok(g1_lower(k)),
            }
        }
    }

    /// The signature of the secret key `sk >= 1` on a hashed message: the
    /// multiple `[sk] h` of the hashed message, which must pass the range
    /// check of the limbs.
    pub open spec fn signature_spec(&self, hash: (Seq<int>, Seq<int>), sk: nat) -> Result<
        (Seq<int>, Seq<int>),
        ChipError,
    > {
        if !self.pairing_chip.g2_in_range(hash) {
            Err(ChipError::ConstraintViolation(Violation::FieldRange))
        } else {
            ec_scalar_mul(&self.fp2_spec(), hash, sk)
        }
    }

    /// The public key that belongs to a secret key.
    pub fn public_key(&self, g1: &G1Affine, sk: &BigInt) -> (r: Result<G1Affine, ChipError>)
        requires
            self.wf(),
            big_value(*sk) >= 1,
        ensures
            match r {
                Ok(k) => self.public_key_spec(g1@, big_value(*sk) as nat) == Ok::<
                    (int, int),
                    ChipError,
                >(k@),
                Err(e) => self.public_key_spec(g1@, big_value(*sk) as nat) == Err::<
                    (int, int),
                    ChipError,
                >(e),
            },
    {
        let ecc = EccChip::new(self.pairing_chip.fp_chip);
        let base = match self.pairing_chip.load_private_g1_unchecked(g1) {
            Ok(p) => p,
            Err(e) => {
                return Err(e);
            },
        };
        assert(ecc.value(&base) == g1_lift(g1@));
        match ecc.scalar_mult(&base, sk) {
            Ok(k) => {
                assert(g1_value(&k) == g1_lower(ecc.value(&k)));
                Ok(G1Affine { x: big_clone(&k.x.0.value), y: big_clone(&k.y.0.value) })
            },
            Err(e) => Err(e),
        }
    }

    /// The signature of a secret key on a hashed message.
    pub fn sign(&self, msghash: &G2Affine, sk: &BigInt) -> (r: Result<G2Affine, ChipError>)
        requires
            self.wf(),
            big_value(*sk) >= 1,
        ensures
            match r {
                Ok(s) => self.signature_spec(msghash@, big_value(*sk) as nat) == Ok::<
                    (Seq<int>, Seq<int>),
                    ChipError,
                >(s@),
                Err(e) => self.signature_spec(msghash@, big_value(*sk) as nat) == Err::<
                    (Seq<int>, Seq<int>),
                    ChipError,
                >(e),
            },
    {
        let fp2 = self.pairing_chip.miller().fp2();
        let ecc = EccChip::new(&fp2);
        let base = match self.pairing_chip.load_private_g2_unchecked(msghash) {
            Ok(q) => q,
            Err(e) => {
                return Err(e);
            },
        };
        match ecc.scalar_mult(&base, sk) {
            Ok(s) => {
                assert(s.x.0@[0].wf(fp2.fp_chip) && s.x.0@[1].wf(fp2.fp_chip));
                let r = G2Affine {
                    x: Fq2 { c0: big_clone(&s.x.0[0].0.value), c1: big_clone(&s.x.0[1].0.value) },
                    y: Fq2 { c0: big_clone(&s.y.0[0].0.value), c1: big_clone(&s.y.0[1].0.value) },
                };
                assert(r.x@ =~= s.x@);
                assert(r.y@ =~= s.y@);
                Ok(r)
            },
            Err(e) => Err(e),
        }
    }

    /// The signatures and the public keys of the first `n` secret keys on
    /// one hashed message, in the order of the keys.
    pub open spec fn witnesses_spec(
        &self,
        g1: (int, int),
        hash: (Seq<int>, Seq<int>),
        sks: Seq<int>,
        n: nat,
    ) -> Result<(Seq<(Seq<int>, Seq<int>)>, Seq<(int, int)>), ChipError>
        decreases n,
    {
        if n == 0 {
            Ok((Seq::empty(), Seq::empty()))
        } else {
            match self.witnesses_spec(g1, hash, sks, (n - 1) as nat) {
                Err(e) => Err(e),
                Ok(w) => match self.signature_spec(hash, sks[n - 1] as nat) {
                    Err(e) => Err(e),
                    Ok(s) => match self.public_key_spec(g1, sks[n - 1] as nat) {
                        Err(e) => Err(e),
                        Ok(k) => Ok((w.0.push(s), w.1.push(k))),
                    },
                },
            }
        }
    }

    /// An error among the witnesses stays.
    pub proof fn lemma_witnesses_stays(
        &self,
        g1: (int, int),
        hash: (Seq<int>, Seq<int>),
        sks: Seq<int>,
        n: nat,
        m: nat,
    )
        requires
            n <= m,
            self.witnesses_spec(g1, hash, sks, n) is Err,
        ensures
            self.witnesses_spec(g1, hash, sks, m) == self.witnesses_spec(g1, hash, sks, n),
        decreases m,
    {
        if n < m {
            self.lemma_witnesses_stays(g1, hash, sks, n, (m - 1) as nat);
        }
    }

    /// What signing a hashed message with every secret key and verifying
    /// the signatures against the public keys answers.
    pub open spec fn circuit_spec(
        &self,
        g1: (int, int),
        hash: (Seq<int>, Seq<int>),
        sks: Seq<int>,
    ) -> Result<Seq<int>, ChipError> {
        match self.witnesses_spec(g1, hash, sks, sks.len()) {
            Err(e) => Err(e),
            Ok(w) => self.verify_spec(g1, w.0, w.1, hash),
        }
    }

    /// Signs a hashed message with every secret key and derives the public
    /// keys.
    pub fn signed_witnesses(&self, g1: &G1Affine, msghash: &G2Affine, secret_keys: &Vec<BigInt>) -> (r:
        Result<(Vec<G2Affine>, Vec<G1Affine>), ChipError>)
        requires
            self.wf(),
            forall|i: int| 0 <= i < secret_keys@.len() ==> big_value(#[trigger] secret_keys@[i]) >= 1,
        ensures
            match r {
                Ok(w) => self.witnesses_spec(
                    g1@,
                    msghash@,
                    scalar_values(secret_keys@),
                    secret_keys@.len(),
                ) == Ok::<(Seq<(Seq<int>, Seq<int>)>, Seq<(int, int)>), ChipError>(
                    (g2_witnesses(w.0@), g1_witnesses(w.1@)),
                ),
                Err(e) => self.witnesses_spec(
                    g1@,
                    msghash@,
                    scalar_values(secret_keys@),
                    secret_keys@.len(),
                ) == Err::<(Seq<(Seq<int>, Seq<int>)>, Seq<(int, int)>), ChipError>(e),
            },
    {
        let ghost sks = scalar_values(secret_keys@);
        let mut signatures: Vec<G2Affine> = Vec::new();
        let mut pubkeys: Vec<G1Affine> = Vec::new();
        let mut i: usize = 0;
        assert(g2_witnesses(signatures@) =~= Seq::empty());
        assert(g1_witnesses(pubkeys@) =~= Seq::empty());
        while i < secret_keys.len()
            invariant
                i <= secret_keys@.len(),
                self.wf(),
                sks == scalar_values(secret_keys@),
                forall|i: int|
                    0 <= i < secret_keys@.len() ==> big_value(#[trigger] secret_keys@[i]) >= 1,
                self.witnesses_spec(g1@, msghash@, sks, i as nat) == Ok::<
                    (Seq<(Seq<int>, Seq<int>)>, Seq<(int, int)>),
                    ChipError,
                >((g2_witnesses(signatures@), g1_witnesses(pubkeys@))),
            decreases secret_keys@.len() - i,
        {
            assert(sks[i as int] == big_value(secret_keys@[i as int]));
            let signature = match self.sign(msghash, &secret_keys[i]) {
                Ok(s) => s,
                Err(e) => {
                    proof {
                        self.lemma_witnesses_stays(
                            g1@,
                            msghash@,
                            sks,
                            (i + 1) as nat,
                            secret_keys@.len() as nat,
                        );
                    }
                    return Err(e);
                },
            };
            let pubkey = match self.public_key(g1, &secret_keys[i]) {
                Ok(k) => k,
                Err(e) => {
                    proof {
                        self.lemma_witnesses_stays(
                            g1@,
                            msghash@,
                            sks,
                            (i + 1) as nat,
                            secret_keys@.len() as nat,
                        );
                    }
                    return Err(e);
                },
            };
            let ghost before_s = g2_witnesses(signatures@);
            let ghost before_k = g1_witnesses(pubkeys@);
            signatures.push(signature);
            pubkeys.push(pubkey);
            assert(g2_witnesses(signatures@) =~= before_s.push(signature@));
            assert(g1_witnesses(pubkeys@) =~= before_k.push(pubkey@));
            i = i + 1;
        }
        Ok((signatures, pubkeys))
    }

    /// Signs a hashed message with every secret key, none of them below
    /// one, and verifies the signatures against the public keys that belong
    /// to the keys.
    pub fn bls_signature_circuit(
        &self,
        g1: &G1Affine,
        msghash: &G2Affine,
        secret_keys: &Vec<BigInt>,
    ) -> (r: Result<EqualityWitness, ChipError>)
        requires
            self.wf(),
            forall|i: int| 0 <= i < secret_keys@.len() ==> big_value(#[trigger] secret_keys@[i]) >= 1,
        ensures
            self.witness_agrees(r, self.circuit_spec(g1@, msghash@, scalar_values(secret_keys@))),
    {
        let (signatures, pubkeys) = match self.signed_witnesses(g1, msghash, secret_keys) {
            Ok(w) => w,
            Err(e) => {
                return Err(e);
            },
        };
        self.bls_signature_verify(g1, &signatures, &pubkeys, msghash)
    }

    /// Loads a signature and runs its checks.
    fn load_signature(&self, s: &G2Affine) -> (r: Result<EcPoint<FieldVector>, ChipError>)
        requires
            self.wf(),
        ensures
            match r {
                Ok(q) => self.signature_check(s@) is Ok && g2_value(&q) == s@
                    && self.pairing_chip.miller_spec().g2_wf(&q),
                Err(e) => self.signature_check(s@) == Err::<(), ChipError>(e),
            },
    {
        let fp2 = self.pairing_chip.miller().fp2();
        let q = match self.pairing_chip.load_private_g2_unchecked(s) {
            Ok(v) => v,
            Err(e) => {
                return Err(e);
            },
        };
        match fp2.enforce_less_than(&q.x) {
            Ok(()) => {},
            Err(e) => {
                return Err(e);
            },
        }
        match self.pairing_chip.assert_g2_on_curve(&q) {
            Ok(()) => {},
            Err(e) => {
                return Err(e);
            },
        }
        match self.assert_in_g2(&q) {
            Ok(()) => Ok(q),
            Err(e) => Err(e),
        }
    }

    /// Loads a public key and runs its checks.
    fn load_pubkey(&self, k: &G1Affine) -> (r: Result<EcPoint<FieldElement>, ChipError>)
        requires
            self.wf(),
        ensures
            match r {
                Ok(p) => self.pubkey_check(k@) is Ok && g1_value(&p) == k@
                    && self.pairing_chip.miller_spec().g1_wf(&p),
                Err(e) => self.pubkey_check(k@) == Err::<(), ChipError>(e),
            },
    {
        let fp = self.pairing_chip.fp_chip;
        let p = match self.pairing_chip.load_private_g1_unchecked(k) {
            Ok(v) => v,
            Err(e) => {
                return Err(e);
            },
        };
        match fp.enforce_less_than(&p.x) {
            Ok(()) => {},
            Err(e) => {
                proof {
                    vstd::arithmetic::power::lemma_pow_positive(
                        fp.base(),
                        fp.num_limbs as nat,
                    );
                }
                return Err(e);
            },
        }
        match self.pairing_chip.assert_g1_on_curve(&p) {
            Ok(()) => Ok(p),
            Err(e) => Err(e),
        }
    }

    /// Folds the signatures into their sum.
    fn fold_signatures(&self, signatures: &Vec<G2Affine>) -> (r: Result<
        EcPoint<FieldVector>,
        ChipError,
    >)
        requires
            self.wf(),
            signatures@.len() >= 1,
        ensures
            match r {
                Ok(q) => self.aggregate_signatures(g2_witnesses(signatures@), signatures@.len())
                    == Ok::<(Seq<int>, Seq<int>), ChipError>(g2_value(&q))
                    && self.pairing_chip.miller_spec().g2_wf(&q),
                Err(e) => self.aggregate_signatures(g2_witnesses(signatures@), signatures@.len())
                    == Err::<(Seq<int>, Seq<int>), ChipError>(e),
            },
    {
        let fp2 = self.pairing_chip.miller().fp2();
        let g2 = EccChip::new(&fp2);
        let ghost sigs = g2_witnesses(signatures@);
        let mut sum = match self.load_signature(&signatures[0]) {
            Ok(q) => q,
            Err(e) => {
                proof {
                    self.lemma_aggregate_signatures_stays(sigs, 1, signatures@.len() as nat);
                }
                return Err(e);
            },
        };
        let mut i: usize = 1;
        while i < signatures.len()
            invariant
                1 <= i <= signatures@.len(),
                self.wf(),
                fp2 == self.fp2_spec(),
                fp2.wf(),
                g2.field_chip == &fp2,
                sigs == g2_witnesses(signatures@),
                self.pairing_chip.miller_spec().g2_wf(&sum),
                self.aggregate_signatures(sigs, i as nat) == Ok::<(Seq<int>, Seq<int>), ChipError>(
                    g2_value(&sum),
                ),
            decreases signatures@.len() - i,
        {
            assert(sigs[i as int] == signatures@[i as int]@);
            let next = match self.load_signature(&signatures[i]) {
                Ok(q) => q,
                Err(e) => {
                    proof {
                        self.lemma_aggregate_signatures_stays(
                            sigs,
                            (i + 1) as nat,
                            signatures@.len() as nat,
                        );
                    }
                    return Err(e);
                },
            };
            match g2.add_unequal(&sum, &next, false) {
                Ok(q) => {
                    sum = q;
                },
                Err(e) => {
                    proof {
                        self.lemma_aggregate_signatures_stays(
                            sigs,
                            (i + 1) as nat,
                            signatures@.len() as nat,
                        );
                    }
                    return Err(e);
                },
            }
            i = i + 1;
        }
        Ok(sum)
    }

    /// Folds the public keys into their sum.
    fn fold_pubkeys(&self, pubkeys: &Vec<G1Affine>) -> (r: Result<
        EcPoint<FieldElement>,
        ChipError,
    >)
        requires
            self.wf(),
            pubkeys@.len() >= 1,
        ensures
            match r {
                Ok(p) => self.aggregate_pubkeys(g1_witnesses(pubkeys@), pubkeys@.len()) == Ok::<
                    (int, int),
                    ChipError,
                >(g1_value(&p)) && self.pairing_chip.miller_spec().g1_wf(&p),
                Err(e) => self.aggregate_pubkeys(g1_witnesses(pubkeys@), pubkeys@.len()) == Err::<
                    (int, int),
                    ChipError,
                >(e),
            },
    {
        let g1 = EccChip::new(self.pairing_chip.fp_chip);
        let ghost keys = g1_witnesses(pubkeys@);
        let mut sum = match self.load_pubkey(&pubkeys[0]) {
            Ok(p) => p,
            Err(e) => {
                proof {
                    self.lemma_aggregate_pubkeys_stays(keys, 1, pubkeys@.len() as nat);
                }
                return Err(e);
            },
        };
        let mut i: usize = 1;
        while i < pubkeys.len()
            invariant
                1 <= i <= pubkeys@.len(),
                self.wf(),
                g1.field_chip == self.pairing_chip.fp_chip,
                keys == g1_witnesses(pubkeys@),
                self.pairing_chip.miller_spec().g1_wf(&sum),
                self.aggregate_pubkeys(keys, i as nat) == Ok::<(int, int), ChipError>(
                    g1_value(&sum),
                ),
            decreases pubkeys@.len() - i,
        {
            assert(keys[i as int] == pubkeys@[i as int]@);
            let next = match self.load_pubkey(&pubkeys[i]) {
                Ok(p) => p,
                Err(e) => {
                    proof {
                        self.lemma_aggregate_pubkeys_stays(
                            keys,
                            (i + 1) as nat,
                            pubkeys@.len() as nat,
                        );
                    }
                    return Err(e);
                },
            };
            assert(g1.value(&sum) == g1_lift(g1_value(&sum)));
            assert(g1.value(&next) == g1_lift(g1_value(&next)));
            match g1.add_unequal(&sum, &next, false) {
                Ok(p) => {
                    assert(g1_value(&p) == g1_lower(g1.value(&p)));
                    sum = p;
                },
                Err(e) => {
                    proof {
                        self.lemma_aggregate_pubkeys_stays(
                            keys,
                            (i + 1) as nat,
                            pubkeys@.len() as nat,
                        );
                    }
                    return Err(e);
                },
            }
            i = i + 1;
        }
        Ok(sum)
    }

    /// Loads the generator and the hashed message and runs their checks.
    fn load_fixed_points(&self, g1: &G1Affine, msghash: &G2Affine) -> (r: Result<
        (EcPoint<FieldElement>, EcPoint<FieldVector>),
        ChipError,
    >)
        requires
            self.wf(),
        ensures
            match r {
                Ok(s) => self.fixed_points_check(g1@, msghash@) is Ok && g1_value(&s.0) == g1@
                    && g2_value(&s.1) == msghash@ && self.pairing_chip.miller_spec().g1_wf(&s.0)
                    && self.pairing_chip.miller_spec().g2_wf(&s.1),
                Err(e) => self.fixed_points_check(g1@, msghash@) == Err::<(), ChipError>(e),
            },
    {
        let pairing = self.pairing_chip;
        let g1_assigned = match pairing.load_private_g1_unchecked(g1) {
            Ok(p) => p,
            Err(e) => {
                return Err(e);
            },
        };
        match pairing.assert_g1_on_curve(&g1_assigned) {
            Ok(()) => {},
            Err(e) => {
                return Err(e);
            },
        }
        let hash_assigned = match pairing.load_private_g2_unchecked(msghash) {
            Ok(q) => q,
            Err(e) => {
                return Err(e);
            },
        };
        match pairing.assert_g2_on_curve(&hash_assigned) {
            Ok(()) => {},
            Err(e) => {
                return Err(e);
            },
        }
        match self.assert_in_g2(&hash_assigned) {
            Ok(()) => Ok((g1_assigned, hash_assigned)),
            Err(e) => Err(e),
        }
    }

    /// The pairing product `e(g1, -sig) e(key, hash)` of loaded points, and
    /// whether it is the one of the target group.
    pub fn verify_assigned(
        &self,
        g1: &EcPoint<FieldElement>,
        sig: &EcPoint<FieldVector>,
        key: &EcPoint<FieldElement>,
        hash: &EcPoint<FieldVector>,
    ) -> (r: Result<EqualityWitness, ChipError>)
        requires
            self.wf(),
            self.pairing_chip.miller_spec().g1_wf(g1),
            self.pairing_chip.miller_spec().g2_wf(sig),
            self.pairing_chip.miller_spec().g1_wf(key),
            self.pairing_chip.miller_spec().g2_wf(hash),
        ensures
            self.witness_agrees(
                r,
                self.pairing_product(g1_value(g1), g2_value(sig), g1_value(key), g2_value(hash)),
            ),
    {
        let pairing = self.pairing_chip;
        let miller = pairing.miller();
        let fp2 = miller.fp2();
        let fp12 = miller.fp12();
        let g2 = EccChip::new(&fp2);
        let neg_sig = g2.negate(sig);
        let mut pairs: Vec<(&EcPoint<FieldElement>, &EcPoint<FieldVector>)> = Vec::new();
        pairs.push((g1, &neg_sig));
        pairs.push((key, hash));
        assert(pair_g1_values(pairs@) =~= seq![g1_value(g1), g1_value(key)]);
        assert(pair_g2_values(pairs@) =~= seq![g2_value(&neg_sig), g2_value(hash)]);
        let looped = match pairing.multi_miller_loop(&pairs) {
            Ok(f) => f,
            Err(e) => {
                return Err(e);
            },
        };
        let value = pairing.final_exp(&looped);
        let one = fp12.one();
        let is_identity = fp12.is_equal(&value, &one);
        Ok(EqualityWitness { value, is_identity })
    }

    /// The outcome `r` is the outcome `m` of the mathematics: the same
    /// value, with the flag that tells whether it is the one, or the same
    /// error.
    pub open spec fn witness_agrees(
        &self,
        r: Result<EqualityWitness, ChipError>,
        m: Result<Seq<int>, ChipError>,
    ) -> bool {
        match r {
            Ok(w) => {
                &&& m is Ok
                &&& m->Ok_0 == w.value@
                &&& w.is_identity == vec_congruent(base_modulus(), w.value@, fp12_one())
                &&& w.value.wf(self.fp_chip)
                &&& w.value.0@.len() == 12
            },
            Err(e) => m is Err && m->Err_0 == e,
        }
    }

    /// Verifies the signatures of the public keys on one hashed message:
    /// `e(g1, s) = e(k, h)` for the sums `s` of the signatures and `k` of the
    /// public keys, checked as `e(g1, -s) e(k, h) = 1` with one Miller loop
    /// over both pairs and one final exponentiation.
    pub fn bls_signature_verify(
        &self,
        g1: &G1Affine,
        signatures: &Vec<G2Affine>,
        pubkeys: &Vec<G1Affine>,
        msghash: &G2Affine,
    ) -> (r: Result<EqualityWitness, ChipError>)
        requires
            self.wf(),
        ensures
            self.witness_agrees(
                r,
                self.verify_spec(
                    g1@,
                    g2_witnesses(signatures@),
                    g1_witnesses(pubkeys@),
                    msghash@,
                ),
            ),
    {
        if signatures.len() != pubkeys.len() || signatures.len() == 0 {
            return Err(ChipError::InputShape);
        }
        let (g1_assigned, hash_assigned) = match self.load_fixed_points(g1, msghash) {
            Ok(s) => s,
            Err(e) => {
                return Err(e);
            },
        };
        let signature = match self.fold_signatures(signatures) {
            Ok(q) => q,
            Err(e) => {
                return Err(e);
            },
        };
        let pubkey = match self.fold_pubkeys(pubkeys) {
            Ok(p) => p,
            Err(e) => {
                return Err(e);
            },
        };
        self.verify_assigned(&g1_assigned, &signature, &pubkey, &hash_assigned)
    }
}

} // verus!
