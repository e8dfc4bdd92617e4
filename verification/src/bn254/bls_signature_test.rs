//! The sign matrix of the signature equation: the pairing product
//! `e(g1, s) e(k, h)` with the signature or the hashed message negated in
//! each of the ways the chips offer, and the equation as two separate
//! pairings.

use crate::bn254::base_modulus;
use crate::bn254::pairing::PairingChip;
use crate::curves::{G1Affine, G2Affine};
use crate::ecc::{ec_negate, EcPoint, EccChip};
use crate::errors::{ChipError, Violation};
use crate::fields::fp12::{fp12_mul, fp12_one};
use crate::fields::fp::{FieldElement, FpChip};
use crate::fields::vector::{vec_congruent, FieldVector, FieldVectorChip};
use crate::pairing::{g1_value, g2_value, pair_g1_values, pair_g2_values};
use vstd::prelude::*;

verus! {

/// The chip that evaluates the signature equation under every placement of
/// a sign.
pub struct BlsSignatureChipTest<'chip> {
    pub fp_chip: &'chip FpChip,
    pub pairing_chip_1: &'chip PairingChip<'chip>,
}

/// The chip that evaluates the two sides of the signature equation as two
/// separate pairings.
pub struct BlsSignatureChipSeparateTest<'chip> {
    pub fp_chip: &'chip FpChip,
    pub pairing_chip_1: &'chip PairingChip<'chip>,
    pub pairing_chip_2: &'chip PairingChip<'chip>,
}

/// The seven placements of a sign: the signature and the hashed message of
/// each pairing product, in order. The plain product comes first; then the
/// signature negated as a witness, the hashed message negated as a witness,
/// the signature negated on the twist and on its lift to the target field,
/// and the hashed message negated on the twist and on its lift.
pub open spec fn sign_matrix(sig: (Seq<int>, Seq<int>), hash: (Seq<int>, Seq<int>)) -> Seq<
    ((Seq<int>, Seq<int>), (Seq<int>, Seq<int>)),
> {
    let neg_sig = ec_negate(base_modulus(), sig);
    let neg_hash = ec_negate(base_modulus(), hash);
    seq![
        (sig, hash),
        (neg_sig, hash),
        (sig, neg_hash),
        (neg_sig, hash),
        (neg_sig, hash),
        (sig, neg_hash),
        (sig, neg_hash),
    ]
}

/// Whether a pair of integers passes the range check of the limbs of
/// `chip`.
pub open spec fn g1_in_range(chip: &PairingChip, k: (int, int)) -> bool {
    let span = vstd::arithmetic::power::pow(chip.fp_chip.base(), chip.fp_chip.num_limbs as nat);
    0 <= k.0 < span && 0 <= k.1 < span
}

/// What loading a point of the base curve with the curve check answers.
pub open spec fn g1_load_check(chip: &PairingChip, k: (int, int)) -> Result<(), ChipError> {
    if !g1_in_range(chip, k) {
        Err(ChipError::ConstraintViolation(Violation::FieldRange))
    } else if !chip.g1_on_curve(k) {
        Err(ChipError::ConstraintViolation(Violation::OnCurve))
    } else {
        Ok(())
    }
}

/// What loading a point of the twist with the curve check answers.
pub open spec fn g2_load_check(chip: &PairingChip, q: (Seq<int>, Seq<int>)) -> Result<
    (),
    ChipError,
> {
    if !chip.g2_in_range(q) {
        Err(ChipError::ConstraintViolation(Violation::FieldRange))
    } else if !chip.g2_on_curve(q) {
        Err(ChipError::ConstraintViolation(Violation::OnCurve))
    } else {
        Ok(())
    }
}

impl<'chip> BlsSignatureChipTest<'chip> {
    /// The chip over the given field chip and pairing chip.
    pub fn new(fp_chip: &'chip FpChip, pairing_chip_1: &'chip PairingChip<'chip>) -> (r: Self)
        ensures
            r.fp_chip == fp_chip,
            r.pairing_chip_1 == pairing_chip_1,
    {
        Self { fp_chip, pairing_chip_1 }
    }

    /// The pairing chip is set up, over the field chip of this chip.
    pub open spec fn wf(&self) -> bool {
        self.pairing_chip_1.wf() && self.fp_chip == self.pairing_chip_1.fp_chip
    }

    /// Whether the pairing product `e(g1, sig) e(key, hash)` is the one of
    /// the target group.
    #[verifier::opaque]
    pub open spec fn product_is_one(
        &self,
        g1: (int, int),
        sig: (Seq<int>, Seq<int>),
        key: (int, int),
        hash: (Seq<int>, Seq<int>),
    ) -> Result<bool, ChipError> {
        match self.pairing_chip_1.multi_pairing_spec(seq![sig, hash], seq![g1, key]) {
            Err(e) => Err(e),
            Ok(v) => Ok(vec_congruent(base_modulus(), v, fp12_one())),
        }
    }

    /// The answers for the first `n` placements of the sign matrix.
    pub open spec fn outcomes(
        &self,
        g1: (int, int),
        key: (int, int),
        signed: Seq<((Seq<int>, Seq<int>), (Seq<int>, Seq<int>))>,
        n: nat,
    ) -> Result<Seq<bool>, ChipError>
        decreases n,
    {
        if n == 0 {
            Ok(Seq::empty())
        } else {
            match self.outcomes(g1, key, signed, (n - 1) as nat) {
                Err(e) => Err(e),
                Ok(v) => match self.product_is_one(g1, signed[n - 1].0, key, signed[n - 1].1) {
                    Err(e) => Err(e),
                    Ok(b) => Ok(v.push(b)),
                },
            }
        }
    }

    /// An error among the answers stays.
    pub proof fn lemma_outcomes_stays(
        &self,
        g1: (int, int),
        key: (int, int),
        signed: Seq<((Seq<int>, Seq<int>), (Seq<int>, Seq<int>))>,
        n: nat,
        m: nat,
    )
        requires
            n <= m,
            self.outcomes(g1, key, signed, n) is Err,
        ensures
            self.outcomes(g1, key, signed, m) == self.outcomes(g1, key, signed, n),
        decreases m,
    {
        if n < m {
            self.lemma_outcomes_stays(g1, key, signed, n, (m - 1) as nat);
        }
    }

    /// What loading the witnesses of the sign matrix answers: the
    /// generator, the signature, the public key, the hashed message and the
    /// negatives of the signature and of the hashed message, each with the
    /// curve check and in this order.
    #[verifier::opaque]
    pub open spec fn loads_check(
        &self,
        g1: (int, int),
        sig: (Seq<int>, Seq<int>),
        key: (int, int),
        hash: (Seq<int>, Seq<int>),
    ) -> Result<(), ChipError> {
        let chip = self.pairing_chip_1;
        match g1_load_check(chip, g1) {
            Err(e) => Err(e),
            Ok(()) => match g2_load_check(chip, sig) {
                Err(e) => Err(e),
                Ok(()) => match g1_load_check(chip, key) {
                    Err(e) => Err(e),
                    Ok(()) => match g2_load_check(chip, hash) {
                        Err(e) => Err(e),
                        Ok(()) => match g2_load_check(chip, ec_negate(base_modulus(), sig)) {
                            Err(e) => Err(e),
                            Ok(()) => g2_load_check(chip, ec_negate(base_modulus(), hash)),
                        },
                    },
                },
            },
        }
    }

    /// What the sign matrix answers on the given witnesses: once every
    /// witness has loaded, each placement says whether its pairing product
    /// is the one of the target group.
    pub open spec fn sign_matrix_spec(
        &self,
        g1: (int, int),
        sig: (Seq<int>, Seq<int>),
        key: (int, int),
        hash: (Seq<int>, Seq<int>),
    ) -> Result<Seq<bool>, ChipError> {
        match self.loads_check(g1, sig, key, hash) {
            Err(e) => Err(e),
            Ok(()) => self.outcomes(g1, key, sign_matrix(sig, hash), 7),
        }
    }

    /// However a point is negated, as a witness, on the twist or on its lift
    /// to the target field, the answer is the same: the answers for the
    /// three negations of the signature agree, and so do those for the three
    /// negations of the hashed message.
    pub proof fn lemma_negations_agree(
        &self,
        g1: (int, int),
        sig: (Seq<int>, Seq<int>),
        key: (int, int),
        hash: (Seq<int>, Seq<int>),
    )
        requires
            self.sign_matrix_spec(g1, sig, key, hash) is Ok,
        ensures
            ({
                let answers = self.sign_matrix_spec(g1, sig, key, hash)->Ok_0;
                &&& answers.len() == 7
                &&& answers[1] == answers[3]
                &&& answers[1] == answers[4]
                &&& answers[2] == answers[5]
                &&& answers[2] == answers[6]
            }),
    {
        reveal_with_fuel(BlsSignatureChipTest::outcomes, 8);
    }

    /// Whether the pairing product of loaded points is the one of the
    /// target group.
    pub fn product_of(
        &self,
        g1: &EcPoint<FieldElement>,
        sig: &EcPoint<FieldVector>,
        key: &EcPoint<FieldElement>,
        hash: &EcPoint<FieldVector>,
    ) -> (r: Result<bool, ChipError>)
        requires
            self.wf(),
            self.pairing_chip_1.miller_spec().g1_wf(g1),
            self.pairing_chip_1.miller_spec().g2_wf(sig),
            self.pairing_chip_1.miller_spec().g1_wf(key),
            self.pairing_chip_1.miller_spec().g2_wf(hash),
        ensures
            r == self.product_is_one(g1_value(g1), g2_value(sig), g1_value(key), g2_value(hash)),
    {
        reveal(BlsSignatureChipTest::product_is_one);
        let pairing = self.pairing_chip_1;
        let fp12 = pairing.miller().fp12();
        let mut pairs: Vec<(&EcPoint<FieldElement>, &EcPoint<FieldVector>)> = Vec::new();
        pairs.push((g1, sig));
        pairs.push((key, hash));
        assert(pair_g1_values(pairs@) =~= seq![g1_value(g1), g1_value(key)]);
        assert(pair_g2_values(pairs@) =~= seq![g2_value(sig), g2_value(hash)]);
        let looped = match pairing.multi_miller_loop(&pairs) {
            Ok(f) => f,
            Err(e) => {
                return Err(e);
            },
        };
        let value = pairing.final_exp(&looped);
        let one = fp12.one();
        Ok(fp12.is_equal(&value, &one))
    }

    /// Loads the witnesses of the sign matrix: the generator, the
    /// signature, the public key, the hashed message, and the negatives of
    /// the signature and of the hashed message.
    fn load_witnesses(
        &self,
        g1: &G1Affine,
        signature: &G2Affine,
        pubkey: &G1Affine,
        msghash: &G2Affine,
    ) -> (r: Result<
        (
            EcPoint<FieldElement>,
            EcPoint<FieldVector>,
            EcPoint<FieldElement>,
            EcPoint<FieldVector>,
            EcPoint<FieldVector>,
            EcPoint<FieldVector>,
        ),
        ChipError,
    >)
        requires
            self.wf(),
        ensures
            match r {
                Ok(w) => {
                    &&& self.loads_check(g1@, signature@, pubkey@, msghash@) is Ok
                    &&& g1_value(&w.0) == g1@
                    &&& g2_value(&w.1) == signature@
                    &&& g1_value(&w.2) == pubkey@
                    &&& g2_value(&w.3) == msghash@
                    &&& g2_value(&w.4) == ec_negate(base_modulus(), signature@)
                    &&& g2_value(&w.5) == ec_negate(base_modulus(), msghash@)
                    &&& self.pairing_chip_1.miller_spec().g1_wf(&w.0)
                    &&& self.pairing_chip_1.miller_spec().g2_wf(&w.1)
                    &&& self.pairing_chip_1.miller_spec().g1_wf(&w.2)
                    &&& self.pairing_chip_1.miller_spec().g2_wf(&w.3)
                    &&& self.pairing_chip_1.miller_spec().g2_wf(&w.4)
                    &&& self.pairing_chip_1.miller_spec().g2_wf(&w.5)
                },
                Err(e) => self.loads_check(g1@, signature@, pubkey@, msghash@) == Err::<
                    (),
                    ChipError,
                >(e),
            },
    {
        reveal(BlsSignatureChipTest::loads_check);
        let pairing = self.pairing_chip_1;
        let g1_assigned = match pairing.load_private_g1(g1) {
            Ok(p) => p,
            Err(e) => {
                return Err(e);
            },
        };
        let signature_assigned = match pairing.load_private_g2(signature) {
            Ok(q) => q,
            Err(e) => {
                return Err(e);
            },
        };
        let pubkey_assigned = match pairing.load_private_g1(pubkey) {
            Ok(p) => p,
            Err(e) => {
                return Err(e);
            },
        };
        let hash_m_assigned = match pairing.load_private_g2(msghash) {
            Ok(q) => q,
            Err(e) => {
                return Err(e);
            },
        };
        let neg_signature = signature.negated(&pairing.fp_chip.p);
        let neg_signature_assigned = match pairing.load_private_g2(&neg_signature) {
            Ok(q) => q,
            Err(e) => {
                return Err(e);
            },
        };
        let neg_hash = msghash.negated(&pairing.fp_chip.p);
        let neg_hash_m_assigned = match pairing.load_private_g2(&neg_hash) {
            Ok(q) => q,
            Err(e) => {
                return Err(e);
            },
        };
        Ok(
            (
                g1_assigned,
                signature_assigned,
                pubkey_assigned,
                hash_m_assigned,
                neg_signature_assigned,
                neg_hash_m_assigned,
            ),
        )
    }

    /// Loads the four witnesses and the negatives of the signature and of
    /// the hashed message, and answers for each of the seven placements of
    /// a sign whether the pairing product is the one of the target group.
    /// Placements that hold the same points share one evaluation of the
    /// pairing product. For a genuine signature the first answer is no and
    /// the others are yes.
    pub fn bls_signature_verify_test(
        &self,
        g1: &G1Affine,
        signature: &G2Affine,
        pubkey: &G1Affine,
        msghash: &G2Affine,
    ) -> (r: Result<Vec<bool>, ChipError>)
        requires
            self.wf(),
        ensures
            match r {
                Ok(v) => self.sign_matrix_spec(g1@, signature@, pubkey@, msghash@) == Ok::<
                    Seq<bool>,
                    ChipError,
                >(v@),
                Err(e) => self.sign_matrix_spec(g1@, signature@, pubkey@, msghash@) == Err::<
                    Seq<bool>,
                    ChipError,
                >(e),
            },
    {
        let pairing = self.pairing_chip_1;
        let fp2 = pairing.miller().fp2();
        let g2 = EccChip::new(&fp2);
        let vectors = FieldVectorChip::new(pairing.fp_chip);
        let (
            g1_assigned,
            signature_assigned,
            pubkey_assigned,
            hash_m_assigned,
            neg_signature_assigned,
            neg_hash_m_assigned,
        ) = match self.load_witnesses(g1, signature, pubkey, msghash) {
            Ok(w) => w,
            Err(e) => {
                return Err(e);
            },
        };
        // The negatives that the chips form hold the same points as the
        // negated witnesses: the signature is negated on the twist, the
        // hashed message on its lift to the target field.
        let neg_signature_assigned_g2 = g2.negate(&signature_assigned);
        let neg_hash_m_assigned_g12 = EcPoint {
            x: hash_m_assigned.x.duplicate(pairing.fp_chip),
            y: vectors.negate(&hash_m_assigned.y),
        };
        assert(pairing.miller_spec().g2_wf(&neg_hash_m_assigned_g12)) by {
            assert(neg_hash_m_assigned_g12.x@.len() == 2);
            assert(neg_hash_m_assigned_g12.y@.len() == 2);
        }
        assert(g2_value(&neg_signature_assigned_g2) == g2_value(&neg_signature_assigned));
        assert(g2_value(&neg_hash_m_assigned_g12) == g2_value(&neg_hash_m_assigned));
        let ghost signed = sign_matrix(signature@, msghash@);
        let ghost g1v = g1@;
        let ghost keyv = pubkey@;
        proof {
            reveal_with_fuel(BlsSignatureChipTest::outcomes, 8);
        }
        let plain = match self.product_of(
            &g1_assigned,
            &signature_assigned,
            &pubkey_assigned,
            &hash_m_assigned,
        ) {
            Ok(b) => b,
            Err(e) => {
                return Err(e);
            },
        };
        let signature_negated = match self.product_of(
            &g1_assigned,
            &neg_signature_assigned_g2,
            &pubkey_assigned,
            &hash_m_assigned,
        ) {
            Ok(b) => b,
            Err(e) => {
                return Err(e);
            },
        };
        let hash_negated = match self.product_of(
            &g1_assigned,
            &signature_assigned,
            &pubkey_assigned,
            &neg_hash_m_assigned_g12,
        ) {
            Ok(b) => b,
            Err(e) => {
                return Err(e);
            },
        };
        let mut answers: Vec<bool> = Vec::new();
        answers.push(plain);
        answers.push(signature_negated);
        answers.push(hash_negated);
        answers.push(signature_negated);
        answers.push(signature_negated);
        answers.push(hash_negated);
        answers.push(hash_negated);
        assert(answers@ =~= seq![
            plain,
            signature_negated,
            hash_negated,
            signature_negated,
            signature_negated,
            hash_negated,
            hash_negated,
        ]);
        assert(self.outcomes(g1v, keyv, signed, 7) == Ok::<Seq<bool>, ChipError>(answers@)) by {
            let o0 = Seq::<bool>::empty().push(plain);
            let o1 = o0.push(signature_negated);
            let o2 = o1.push(hash_negated);
            let o3 = o2.push(signature_negated);
            let o4 = o3.push(signature_negated);
            let o5 = o4.push(hash_negated);
            let o6 = o5.push(hash_negated);
            assert(self.outcomes(g1v, keyv, signed, 1) == Ok::<Seq<bool>, ChipError>(o0));
            assert(self.outcomes(g1v, keyv, signed, 2) == Ok::<Seq<bool>, ChipError>(o1));
            assert(self.outcomes(g1v, keyv, signed, 3) == Ok::<Seq<bool>, ChipError>(o2));
            assert(self.outcomes(g1v, keyv, signed, 4) == Ok::<Seq<bool>, ChipError>(o3));
            assert(self.outcomes(g1v, keyv, signed, 5) == Ok::<Seq<bool>, ChipError>(o4));
            assert(self.outcomes(g1v, keyv, signed, 6) == Ok::<Seq<bool>, ChipError>(o5));
            assert(self.outcomes(g1v, keyv, signed, 7) == Ok::<Seq<bool>, ChipError>(o6));
            assert(o6 =~= answers@);
        }
        Ok(answers)
    }
}

impl<'chip> BlsSignatureChipSeparateTest<'chip> {
    /// The chip over the given field chip and pairing chips.
    pub fn new(
        fp_chip: &'chip FpChip,
        pairing_chip_1: &'chip PairingChip<'chip>,
        pairing_chip_2: &'chip PairingChip<'chip>,
    ) -> (r: Self)
        ensures
            r.fp_chip == fp_chip,
            r.pairing_chip_1 == pairing_chip_1,
            r.pairing_chip_2 == pairing_chip_2,
    {
        Self { fp_chip, pairing_chip_1, pairing_chip_2 }
    }

    /// Both pairing chips are set up, over the field chip of this chip.
    pub open spec fn wf(&self) -> bool {
        &&& self.pairing_chip_1.wf()
        &&& self.pairing_chip_2.wf()
        &&& self.fp_chip == self.pairing_chip_1.fp_chip
        &&& self.fp_chip == self.pairing_chip_2.fp_chip
    }

    /// The pairing of a public key or the generator `k` with a point `q` of
    /// the twist, both loaded with the curve check by `chip`.
    pub open spec fn checked_pairing(
        chip: &PairingChip,
        k: (int, int),
        q: (Seq<int>, Seq<int>),
    ) -> Result<Seq<int>, ChipError> {
        match g1_load_check(chip, k) {
            Err(e) => Err(e),
            Ok(()) => match g2_load_check(chip, q) {
                Err(e) => Err(e),
                Ok(()) => chip.multi_pairing_spec(seq![q], seq![k]),
            },
        }
    }

    /// Whether `e(g1, sig) e(key, -hash)` is the one of the target group,
    /// with each pairing computed by its own chip.
    pub open spec fn separate_spec(
        &self,
        g1: (int, int),
        sig: (Seq<int>, Seq<int>),
        key: (int, int),
        hash: (Seq<int>, Seq<int>),
    ) -> Result<bool, ChipError> {
        match Self::checked_pairing(self.pairing_chip_1, g1, sig) {
            Err(e) => Err(e),
            Ok(first) => match Self::checked_pairing(
                self.pairing_chip_2,
                key,
                ec_negate(base_modulus(), hash),
            ) {
                Err(e) => Err(e),
                Ok(second) => Ok(
                    vec_congruent(
                        base_modulus(),
                        fp12_mul(base_modulus(), crate::bn254::XI_0 as int, first, second),
                        fp12_one(),
                    ),
                ),
            },
        }
    }

    /// Loads a point of each curve with `chip` and pairs them.
    fn pair_with(chip: &PairingChip<'chip>, k: &G1Affine, q: &G2Affine) -> (r: Result<
        FieldVector,
        ChipError,
    >)
        requires
            chip.wf(),
        ensures
            chip.fp12_agrees(r, Self::checked_pairing(chip, k@, q@)),
    {
        let p = match chip.load_private_g1(k) {
            Ok(v) => v,
            Err(e) => {
                return Err(e);
            },
        };
        let point = match chip.load_private_g2(q) {
            Ok(v) => v,
            Err(e) => {
                return Err(e);
            },
        };
        chip.pairing(&point, &p)
    }

    /// Verifies `e(g1, signature) = e(pubkey, msghash)` as
    /// `e(g1, signature) e(pubkey, -msghash) = 1`, with the two pairings
    /// computed apart and their values multiplied.
    pub fn bls_signature_verify_separate_test(
        &self,
        g1: &G1Affine,
        signature: &G2Affine,
        pubkey: &G1Affine,
        msghash: &G2Affine,
    ) -> (r: Result<bool, ChipError>)
        requires
            self.wf(),
        ensures
            r == self.separate_spec(g1@, signature@, pubkey@, msghash@),
    {
        let paired_1 = match Self::pair_with(self.pairing_chip_1, g1, signature) {
            Ok(v) => v,
            Err(e) => {
                return Err(e);
            },
        };
        let neg_hash = msghash.negated(&self.fp_chip.p);
        let paired_2 = match Self::pair_with(self.pairing_chip_2, pubkey, &neg_hash) {
            Ok(v) => v,
            Err(e) => {
                return Err(e);
            },
        };
        let fp12 = self.pairing_chip_1.miller().fp12();
        let pairs_multiplied = fp12.mul(&paired_1, &paired_2);
        let one = fp12.one();
        Ok(fp12.is_equal(&pairs_multiplied, &one))
    }
}

} // verus!
