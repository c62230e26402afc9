use poseidon_schnorr::field::{BaseField, MODULUS};
use poseidon_schnorr::poseidon2::Poseidon2Params;
use poseidon_schnorr::sponge::{
    absorb_elements, absorb_no_pad, hash_elements_to_extension, hash_n_to_hash, hash_to_extension,
    reduce_to_elements,
};
use poseidon_schnorr::{hash_n_to_hash_no_pad, hash_no_pad, hash_to_quintic_extension};

#[test]
fn empty_input_gives_the_zero_digest_in_both_modes() {
    assert_eq!(hash_n_to_hash_no_pad(&[]), [0, 0, 0, 0]);
    assert_eq!(hash_no_pad(&[]), [0, 0, 0, 0]);
    assert_eq!(hash_to_quintic_extension(&[]), [0, 0, 0, 0, 0]);
}

#[test]
fn single_zero_element_chunkwise() {
    assert_eq!(
        hash_n_to_hash_no_pad(&[0]),
        [17235583951376661684, 10083644464194131865, 11409601709860874655, 7577240030531334829]
    );
}

#[test]
fn single_zero_element_elementwise() {
    assert_eq!(
        hash_no_pad(&[0]),
        [17235583951376661684, 10083644464194131865, 11409601709860874655, 7577240030531334829]
    );
}

#[test]
fn short_input_pinned_in_both_modes() {
    let expected = [11274073450356067976, 15815722435374099274, 17820970150334694408, 15630110688805608105];
    assert_eq!(hash_n_to_hash_no_pad(&[1, 2, 3]), expected);
    assert_eq!(hash_no_pad(&[1, 2, 3]), expected);
}

#[test]
fn inputs_at_the_chunk_boundaries() {
    let data: Vec<u64> = (0..17).collect();
    assert_eq!(
        hash_n_to_hash_no_pad(&data[..8]),
        [18243748776347319819, 10674975148410631354, 14220205444945226431, 7294857961130422363]
    );
    assert_eq!(
        hash_n_to_hash_no_pad(&data[..9]),
        [6996153317164932099, 10432793417515088383, 1670349746608406833, 17078967852728642410]
    );
    assert_eq!(
        hash_n_to_hash_no_pad(&data),
        [5013263023610521986, 7950539749261844745, 11959032279702774000, 15172531585033910305]
    );
}

#[test]
fn the_two_modes_agree_on_every_length() {
    let data: Vec<u64> = (0..40).map(|i| i * 0x9E37_79B9_7F4A_7C15 + 3).collect();
    for n in 0..=40 {
        assert_eq!(hash_n_to_hash_no_pad(&data[..n]), hash_no_pad(&data[..n]));
    }
}

#[test]
fn hashing_is_deterministic() {
    let data = [7u64, 8, 9, 10, 11, 12, 13, 14, 15, 16];
    assert_eq!(hash_n_to_hash_no_pad(&data), hash_n_to_hash_no_pad(&data));
    assert_eq!(hash_no_pad(&data), hash_no_pad(&data));
    assert_eq!(hash_to_quintic_extension(&data), hash_to_quintic_extension(&data));
}

#[test]
fn raw_values_are_reduced_on_entry() {
    let expected = [12447622746960209486, 12568485534164490086, 6701136169238138076, 2187831449573783948];
    assert_eq!(hash_n_to_hash_no_pad(&[MODULUS, MODULUS + 1, u64::MAX]), expected);
    assert_eq!(hash_n_to_hash_no_pad(&[0, 1, 0xFFFF_FFFE]), expected);
    assert_eq!(hash_no_pad(&[MODULUS, MODULUS + 1, u64::MAX]), expected);
}

#[test]
fn outputs_are_canonical() {
    for seed in 0..20u64 {
        let data = [seed, seed.wrapping_mul(0xFFFF_FFFF_FFFF_FFC5), u64::MAX - seed];
        for &x in hash_n_to_hash_no_pad(&data).iter() {
            assert!(x < MODULUS);
        }
        for &x in hash_to_quintic_extension(&data).iter() {
            assert!(x < MODULUS);
        }
    }
}

#[test]
fn hash_to_quintic_extension_pinned() {
    assert_eq!(
        hash_to_quintic_extension(&[1, 2, 3]),
        [
            11274073450356067976,
            15815722435374099274,
            17820970150334694408,
            15630110688805608105,
            8966280661394520081
        ]
    );
    let data: Vec<u64> = (0..12).collect();
    assert_eq!(
        hash_to_quintic_extension(&data),
        [
            16951489173076615519,
            6974368049347589636,
            786807061475090175,
            8922680970670281100,
            17544929110223056491
        ]
    );
}

#[test]
fn no_padding_hides_zeros_at_the_end_of_the_first_chunk() {
    // the state starts at zero and nothing marks the length
    assert_eq!(hash_n_to_hash_no_pad(&[1, 2, 3]), hash_n_to_hash_no_pad(&[1, 2, 3, 0]));
    assert_eq!(hash_n_to_hash_no_pad(&[0]), hash_n_to_hash_no_pad(&[0; 8]));
    // a ninth element starts a second chunk
    assert_ne!(hash_n_to_hash_no_pad(&[0]), hash_n_to_hash_no_pad(&[0; 9]));
    assert_ne!(hash_n_to_hash_no_pad(&[1, 2, 3]), hash_n_to_hash_no_pad(&[1, 2, 4]));
}

#[test]
fn parametric_functions_agree_with_the_standard_ones() {
    let p = Poseidon2Params::standard();
    let data = [3u64, 1, 4, 1, 5, 9, 2, 6, 5, 3, 5];
    assert_eq!(hash_n_to_hash(&p, &data).to_canonical_u64s(), hash_n_to_hash_no_pad(&data));
    assert_eq!(
        poseidon_schnorr::sponge::hash_no_pad(&p, &data).to_canonical_u64s(),
        hash_no_pad(&data)
    );
    assert_eq!(hash_to_extension(&p, &data).to_canonical_u64s(), hash_to_quintic_extension(&data));
    let elements = reduce_to_elements(&data);
    assert_eq!(
        hash_elements_to_extension(&p, &elements).to_canonical_u64s(),
        hash_to_quintic_extension(&data)
    );
    let a = absorb_no_pad(&p, &data);
    let b = absorb_elements(&p, &elements);
    for i in 0..12 {
        assert_eq!(a[i], b[i]);
    }
    let d = hash_n_to_hash(&p, &data);
    assert_eq!(d.elements()[0], a[0]);
    assert_eq!(d.elements()[3], a[3]);
    assert_eq!(elements[10], BaseField::new(5));
}
