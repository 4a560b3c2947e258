# lvacs

Locally verifiable aggregation of concealed BLS signatures over BLS12-381,
with its contracts proved by Verus.

The scheme: BLS key generation, signing and verification; a setup of
concealment parameters `v = (g^a, g)`, `w = v^b`; conversion of a signature
into a concealed signature (commitments to the signature and to the hashed
message, with a proof of knowledge) and its verification and opening;
aggregation of concealed signatures and its verification; local openings of
an aggregate for one signer and their verification.

Layout of `src/`:

- `curve.rs` — points of G1 and G2, elements of GT and scalars of `Fr`, each
  held as its canonical compressed encoding; the trusted wrappers around the
  `ark_bls12_381` / `ark_ec` operations, with names for their results.
- `params.rs` — the group order, the generators and identities as encodings.
- `utils.rs` — sampling nonzero scalars, and hashing to G1 under the
  scheme's domain separation tag.
- `keys.rs`, `signature.rs`, `setup.rs`, `conceal.rs`, `open.rs`,
  `aggregate.rs`, `verify.rs` — the algorithms, each with a spec function
  for what it computes and an exact contract over it.
- `types.rs` — the data of concealed signatures, aggregates and openings,
  with their views.
- `scheme.rs` — the scheme behind one interface, holding the parameters.

Group arithmetic, pairings, hashing to the curve and sampling are done by
arkworks; what is proved is the composition around them: every result is
stated in terms of named outside results. The pairing's bilinearity enters
through one statement of what it gives of a product of pairings
(`bilinear.rs`: points written over bases, exponents added up); from it the
scheme's laws are proved:

- an honest BLS signature verifies, and verifying is `e(sig, g2) = e(H(m), vk)`;
- a conversion is accepted exactly when the signature it conceals verifies;
- an aggregate of accepted concealed signatures is accepted, and a
  one-member aggregate is accepted exactly when its member is;
- an honest local opening passes its pairing equations;
- opening a conversion succeeds, the parameters are `w = v^b` with
  `w1 = g^(ab)`, an honest local opening plus its concealed signature gives
  the aggregate back, and the aggregate's cross term is an opening's plus the
  signer's own pairing.

`covers.rs`, `fold_terms.rs`, `agg_forms.rs` and `agg_covers.rs` write the
scheme's equations over bases and add up their exponents.
