//! Known-answer tests of the SHA3-256 sponge and the Keccak permutation.

use cage::sha3::keccak;
use cage::sha3::sha3_256;

#[test]
fn test_sha3_256() {
    assert_eq!(
        vec![
            0x64, 0x4b, 0xcc, 0x7e, 0x56, 0x43, 0x73, 0x04, 0x09, 0x99, 0xaa, 0xc8, 0x9e, 0x76,
            0x22, 0xf3, 0xca, 0x71, 0xfb, 0xa1, 0xd9, 0x72, 0xfd, 0x94, 0xa3, 0x1c, 0x3b, 0xfb,
            0xf2, 0x4e, 0x39, 0x38u8,
        ],
        sha3_256(&b"hello world"[..])
    );
    assert_eq!(
        vec![
            0x42, 0x26, 0x18, 0x64, 0x42, 0x46, 0xc2, 0x1a, 0x63, 0x2a, 0x6e, 0x3d, 0xb0, 0x97,
            0x53, 0x18, 0x98, 0x17, 0x77, 0x82, 0xd7, 0xc8, 0x66, 0xec, 0x0b, 0xf2, 0xdf, 0x9d,
            0x7b, 0x41, 0x9f, 0x30u8,
        ],
        sha3_256(&b"Lorem ipsum dolor sit amet, consectetur adipiscing elit. Sed non risus. Suspendisse lectus tortor, dignissim sit amet, adipiscing nec, ultricies sed, dolor. Cras elementum ultrices diam. Maecenas ligula massa, varius a, semper congue, euismod non, mi. Proin porttitor, orci nec nonummy molestie, enim est eleifend mi, non fermentum diam nisl sit amet erat. Duis semper. Duis arcu massa, scelerisque vitae, consequat in, pretium a, enim. Pellentesque congue. Ut in risus volutpat libero pharetra tempor. Cras vestibulum bibendum augue. Praesent egestas leo in pede. Praesent blandit odio eu enim. Pellentesque sed dui ut augue blandit sodales. Vestibulum ante ipsum primis in faucibus orci luctus et ultrices posuere cubilia Curae; Aliquam nibh. Mauris ac mauris sed pede pellentesque fermentum. Maecenas adipiscing ante non diam sodales hendrerit."[..])
    );
}

#[test]
fn test_keccak() {
    let mut buf = vec![0u64; 25];
    keccak(&mut buf);
    assert_eq!(
        vec![
            0xf1258f7940e1dde7,
            0x84d5ccf933c0478a,
            0xd598261ea65aa9ee,
            0xbd1547306f80494d,
            0x8b284e056253d057,
            0xff97a42d7f8e6fd4,
            0x90fee5a0a44647c4,
            0x8c5bda0cd6192e76,
            0xad30a6f71b19059c,
            0x30935ab7d08ffc64,
            0xeb5aa93f2317d635,
            0xa9a6e6260d712103,
            0x81a57c16dbcf555f,
            0x43b831cd0347c826,
            0x01f22f1a11a5569f,
            0x05e5635a21d9ae61,
            0x64befef28cc970f2,
            0x613670957bc46611,
            0xb87c5a554fd00ecb,
            0x8c3ee88a1ccf32c8,
            0x940c7922ae3a2614,
            0x1841f924a2c509e4,
            0x16f53526e70465c2,
            0x75f644e97f30a13b,
            0xeaf1ff7b5ceca249u64,
        ],
        buf
    );
}
