use is_utf8::is_ascii_scalar;
use is_utf8::is_ascii_vector128;
use is_utf8::AsciiError;

fn test_is_slice_ascii<F>(f: F)
where
    F: Fn(&[u8]) -> Result<(), usize>,
{
    for i in 0..=127 {
        for j in i..=127 {
            let v = (i..j).collect::<Vec<u8>>();
            assert!(f(v.as_slice()).is_ok());
        }
        for j in 128..=u8::max_value() {
            let v = (i..=j).collect::<Vec<u8>>();
            let r = f(v.as_slice());
            assert!(r.is_err());
            assert_eq!(r.unwrap_err(), 128 - i as usize);
        }
    }
    for i in 128..=u8::max_value() {
        for j in i..=u8::max_value() {
            let v = (i..=j).collect::<Vec<u8>>();
            let r = f(v.as_slice());
            assert!(r.is_err());
            assert_eq!(r.unwrap_err(), 0 as usize);
        }
    }
}

#[test]
fn test_is_ascii_scalar() {
    test_is_slice_ascii(is_ascii_scalar);
}

#[test]
fn test_is_ascii_vector128() {
    test_is_slice_ascii(is_ascii_vector128);
}

#[test]
fn empty_input_is_ascii() {
    assert!(is_ascii_scalar(&[]).is_ok());
    assert!(is_ascii_vector128(&[]).is_ok());
}

#[test]
fn block_boundaries() {
    // long all-ASCII inputs around the 32-byte block size
    for n in [31usize, 32, 33, 63, 64, 65, 96, 1000] {
        let v = vec![b'a'; n];
        assert!(is_ascii_scalar(&v).is_ok());
        assert!(is_ascii_vector128(&v).is_ok());
    }
    // a high-bit byte at every position near the block boundaries
    for n in [33usize, 64, 65, 100] {
        for at in 0..n {
            let mut v = vec![b'a'; n];
            v[at] = 0xA7;
            assert_eq!(is_ascii_scalar(&v), Err(at));
            assert_eq!(is_ascii_vector128(&v), Err(at));
        }
    }
}

#[test]
fn scanners_agree() {
    // differential check: both scanners give the identical verdict
    let mut inputs: Vec<Vec<u8>> = vec![
        vec![],
        vec![0x80],
        vec![0x7F],
        b"plain ascii text of a modest length".to_vec(),
    ];
    let mut long = vec![b'x'; 300];
    long[257] = 0xC3;
    inputs.push(long);
    for input in &inputs {
        assert_eq!(is_ascii_scalar(input), is_ascii_vector128(input));
    }
}

#[test]
fn ascii_error_reports_index() {
    let e = AsciiError(17);
    assert_eq!(e.valid_up_to(), 17);
}
