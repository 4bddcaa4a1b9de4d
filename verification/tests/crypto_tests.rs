use bangumi_download::crypto::rsa::{rsa_decrypt, rsa_decrypt_block, rsa_encrypt, rsa_encrypt_block};

#[test]
fn encrypting_a_block_under_fixed_padding() {
    let random = vec![0u8; 123];
    let block = rsa_encrypt_block(b"hi", &random);
    let expected: Vec<u8> = vec![
        45, 134, 135, 0, 11, 26, 167, 88, 247, 23, 141, 41, 255, 69, 253, 139, 109, 251, 183, 243, 210, 110, 245,
        119, 65, 205, 69, 139, 115, 93, 149, 242, 141, 141, 165, 247, 180, 137, 115, 193, 118, 105, 35, 223, 98, 89,
        107, 111, 116, 109, 5, 130, 231, 73, 53, 144, 164, 231, 76, 9, 171, 167, 242, 191, 42, 40, 86, 41, 206, 78,
        18, 207, 0, 191, 205, 94, 14, 10, 104, 33, 169, 107, 182, 240, 85, 4, 7, 184, 99, 91, 72, 133, 183, 8, 94,
        248, 11, 14, 208, 228, 51, 15, 17, 46, 169, 124, 229, 32, 236, 156, 104, 59, 125, 216, 131, 118, 9, 129, 56,
        68, 253, 168, 227, 155, 87, 68, 56, 192,
    ];
    assert_eq!(block, expected);
}

#[test]
fn encrypted_data_takes_one_block_per_chunk() {
    assert!(rsa_encrypt(&[]).is_empty());
    assert_eq!(rsa_encrypt(&[7u8; 117]).len(), 128);
    assert_eq!(rsa_encrypt(&[7u8; 118]).len(), 256);
    assert_eq!(rsa_encrypt(&[7u8; 300]).len(), 384);
}

#[test]
fn decrypting_a_block_keeps_data_after_padding() {
    let input: Vec<u8> = (0u8..128).collect();
    let expected: Vec<u8> = vec![
        30, 233, 146, 240, 157, 152, 61, 248, 208, 9, 112, 54, 60, 40, 224, 87, 49, 241, 139, 210, 31, 193, 35, 154,
        35, 186, 18, 219, 159, 85, 195, 190, 210, 142, 239, 230, 32, 125, 61, 62, 213, 14, 230, 30, 173, 130, 20, 22,
        166, 44, 124, 100, 185, 126, 185, 40, 228, 118, 94, 24, 6, 97, 226, 89, 57, 144, 232, 106, 71, 212, 238, 91,
        200, 184, 234, 21, 51, 5, 127, 89, 163, 109, 61, 166, 243, 133, 97, 199, 178, 141, 196, 209, 75, 190, 3, 159,
        49, 143, 29, 123, 223, 39, 119, 20, 196, 6, 80, 244, 145, 90, 56, 153, 73, 248, 34, 1, 205, 199, 106, 49, 13,
        64, 140, 125, 118, 221, 186, 42,
    ];
    assert_eq!(rsa_decrypt_block(&input), expected);
    assert_eq!(rsa_decrypt(&input), expected);
    // two blocks give the data of both, in order
    let mut twice = input.clone();
    twice.extend_from_slice(&input);
    let mut both = expected.clone();
    both.extend_from_slice(&expected);
    assert_eq!(rsa_decrypt(&twice), both);
}

#[test]
fn a_short_block_is_decrypted_too() {
    let expected: Vec<u8> = vec![
        47, 222, 246, 64, 16, 143, 231, 155, 219, 145, 227, 114, 141, 97, 103, 133, 231, 24, 86, 3, 120, 82, 175, 60,
        113, 173, 154, 226, 75, 180, 165, 127, 26, 183, 238, 213, 32, 41, 158, 198, 190, 98, 35, 185, 8, 76, 52, 251,
        228, 235, 75, 25, 90, 101, 194, 132, 189, 158, 246, 18, 130, 45, 140, 231, 144, 139, 195, 63, 155, 232, 121,
        181, 120, 47, 172, 76, 222, 231, 173, 195, 93, 233, 97, 131, 119, 236, 52, 125, 144, 61, 103, 147, 73, 93,
        214, 2, 138, 164, 225, 53, 240, 88, 229, 162, 187, 127, 138, 245, 42, 26, 38, 77, 47, 18, 147, 228, 93, 110,
        152, 235, 195, 205, 115, 91, 68, 151, 98, 195,
    ];
    assert_eq!(rsa_decrypt(&[2u8]), expected);
}
