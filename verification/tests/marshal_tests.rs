use tinyinst::errors::SessionError;
use tinyinst::marshal::marshal;

fn strings(tokens: &[&str]) -> Vec<String> {
    tokens.iter().map(|t| t.to_string()).collect()
}

#[test]
fn marshal_round_trip_single_token() {
    let tokens = strings(&["target.exe"]);
    let c = marshal(&tokens).unwrap();
    assert_eq!(c.count(), 1);
    assert_eq!(c.argc(), 1);
    let back = c.read_token(0);
    assert_eq!(back, b"target.exe".to_vec());
    assert_eq!(back.len(), "target.exe".len());
}

#[test]
fn marshal_round_trip_many_tokens() {
    let tokens = strings(&["-instrument_module", "target.exe", "", "input-small.txt"]);
    let c = marshal(&tokens).unwrap();
    assert_eq!(c.count(), 4);
    for (i, t) in tokens.iter().enumerate() {
        let back = c.read_token(i);
        assert_eq!(back, t.as_bytes().to_vec());
        assert_eq!(back.len(), t.len());
    }
}

#[test]
fn marshal_round_trip_non_ascii_token() {
    let tokens = strings(&["über-module", "目标"]);
    let c = marshal(&tokens).unwrap();
    assert_eq!(c.read_token(0), "über-module".as_bytes().to_vec());
    assert_eq!(c.read_token(1), "目标".as_bytes().to_vec());
}

#[test]
fn marshal_flat_layout_is_null_terminated() {
    let tokens = strings(&["ab", "c"]);
    let c = marshal(&tokens).unwrap();
    let flat = c.flat_bytes();
    assert_eq!(flat.as_slice(), b"ab\0c\0");
    let offs = c.offsets();
    assert_eq!(offs.as_slice(), &[0usize, 3usize]);
}

#[test]
fn marshal_empty_list_is_configuration_error() {
    let tokens: Vec<String> = Vec::new();
    let e = marshal(&tokens).err().unwrap();
    assert_eq!(e, SessionError::Configuration);
}

#[test]
fn marshal_embedded_terminator_is_encoding_error() {
    let tokens = strings(&["fine", "bad\0token"]);
    let e = marshal(&tokens).err().unwrap();
    assert_eq!(e, SessionError::Encoding);
}
