use borsh::BorshDeserialize;
use solana_erc3643::codec::{
    holds_key, holds_u64, read_key_list, without_key, without_u64, write_at, write_key_list, read_bool, read_bytes32, read_key, read_string, read_u16, read_u32, read_u64, read_u64_list,
    read_u8, write_bool, write_bytes32, write_key, write_prefix, write_string, write_u16,
    write_u32, write_u64, write_u64_list, write_u8,
};
use solana_erc3643::pubkey::Pubkey;

#[test]
fn integers_are_written_lowest_byte_first() {
    let mut out = Vec::new();
    write_u8(&mut out, 0xab);
    write_u16(&mut out, 0x1234);
    write_u32(&mut out, 0x89abcdef);
    write_u64(&mut out, 0x0102030405060708);
    assert_eq!(
        out,
        vec![0xab, 0x34, 0x12, 0xef, 0xcd, 0xab, 0x89, 8, 7, 6, 5, 4, 3, 2, 1]
    );
    assert_eq!(read_u8(&out, 0), Some(0xab));
    assert_eq!(read_u16(&out, 1), Some(0x1234));
    assert_eq!(read_u32(&out, 3), Some(0x89abcdef));
    assert_eq!(read_u64(&out, 7), Some(0x0102030405060708));
}

#[test]
fn integers_agree_with_borsh() {
    for v in [0u64, 1, 40, 255, 256, 1 << 32, u64::MAX - 1, u64::MAX] {
        let mut out = Vec::new();
        write_u64(&mut out, v);
        assert_eq!(out, borsh::to_vec(&v).unwrap());
        assert_eq!(read_u64(&out, 0), Some(u64::try_from_slice(&out).unwrap()));
    }
    for v in [0u16, 1, 840, 0xff00, u16::MAX] {
        let mut out = Vec::new();
        write_u16(&mut out, v);
        assert_eq!(out, borsh::to_vec(&v).unwrap());
        assert_eq!(read_u16(&out, 0), Some(v));
    }
    for v in [0u32, 7, 0xdeadbeef, u32::MAX] {
        let mut out = Vec::new();
        write_u32(&mut out, v);
        assert_eq!(out, borsh::to_vec(&v).unwrap());
        assert_eq!(read_u32(&out, 0), Some(v));
    }
}

#[test]
fn reads_past_the_end_give_nothing() {
    let data = [1u8, 2, 3, 4, 5, 6, 7, 8];
    assert_eq!(read_u64(&data, 0), Some(0x0807060504030201));
    assert_eq!(read_u64(&data, 1), None);
    assert_eq!(read_u64(&data, 8), None);
    assert_eq!(read_u64(&data, usize::MAX), None);
    assert_eq!(read_u32(&data, 4), Some(0x08070605));
    assert_eq!(read_u32(&data, 5), None);
    assert_eq!(read_u16(&data, 6), Some(0x0807));
    assert_eq!(read_u16(&data, 7), None);
    assert_eq!(read_u8(&data, 7), Some(8));
    assert_eq!(read_u8(&data, 8), None);
    assert_eq!(read_bytes32(&data, 0), None);
    assert!(read_key(&data, 0).is_none());
    assert_eq!(read_u8(&[], 0), None);
}

#[test]
fn a_boolean_is_the_byte_zero_or_one() {
    let mut out = Vec::new();
    write_bool(&mut out, false);
    write_bool(&mut out, true);
    assert_eq!(out, vec![0, 1]);
    assert_eq!(out, borsh::to_vec(&(false, true)).unwrap());
    assert_eq!(read_bool(&out, 0), Some(false));
    assert_eq!(read_bool(&out, 1), Some(true));
    assert_eq!(read_bool(&out, 2), None);
    assert_eq!(read_bool(&[2], 0), None);
    assert_eq!(read_bool(&[255], 0), None);
    assert!(bool::try_from_slice(&[2]).is_err());
}

#[test]
fn an_address_is_its_thirty_two_bytes() {
    let mut bytes = [0u8; 32];
    for (i, b) in bytes.iter_mut().enumerate() {
        *b = i as u8 + 1;
    }
    let key = Pubkey::new_from_array(bytes);
    let mut out = vec![9u8];
    write_key(&mut out, &key);
    assert_eq!(out.len(), 33);
    assert_eq!(&out[1..], &bytes[..]);
    assert_eq!(&out[1..], &borsh::to_vec(&bytes).unwrap()[..]);
    assert_eq!(read_key(&out, 1), Some(key));
    assert_eq!(read_bytes32(&out, 1), Some(bytes));
    assert_eq!(read_key(&out, 2), None);
    let mut again = Vec::new();
    write_bytes32(&mut again, &bytes);
    assert_eq!(again, bytes.to_vec());
    assert_eq!(key.to_bytes(), bytes);
}

#[test]
fn a_string_is_its_byte_count_and_its_utf8() {
    let mut out = Vec::new();
    write_string(&mut out, &"TEST".to_string());
    assert_eq!(out, vec![4, 0, 0, 0, b'T', b'E', b'S', b'T']);
    assert_eq!(read_string(&out, 0), Some(("TEST".to_string(), 8)));

    let text = "Gr\u{fc}\u{df}e \u{2713} \u{1f600}".to_string();
    let mut out = vec![7u8, 7];
    write_string(&mut out, &text);
    assert_eq!(&out[2..], &borsh::to_vec(&text).unwrap()[..]);
    assert_eq!(read_string(&out, 2), Some((text.clone(), out.len())));
    assert_eq!(String::try_from_slice(&out[2..]).unwrap(), text);

    let mut empty = Vec::new();
    write_string(&mut empty, &String::new());
    assert_eq!(empty, vec![0, 0, 0, 0]);
    assert_eq!(read_string(&empty, 0), Some((String::new(), 4)));
}

#[test]
fn a_string_that_is_cut_short_or_not_utf8_is_not_read() {
    assert_eq!(read_string(&[4, 0, 0, 0, b'T', b'E', b'S'], 0), None);
    assert_eq!(read_string(&[4, 0, 0], 0), None);
    assert_eq!(read_string(&[], 0), None);
    assert_eq!(read_string(&[255, 255, 255, 255, 1, 2], 0), None);
    // a lone continuation byte, an overlong form, a surrogate, a cut sequence
    assert_eq!(read_string(&[1, 0, 0, 0, 0x80], 0), None);
    assert_eq!(read_string(&[2, 0, 0, 0, 0xc0, 0xaf], 0), None);
    assert_eq!(read_string(&[3, 0, 0, 0, 0xed, 0xa0, 0x80], 0), None);
    assert_eq!(read_string(&[2, 0, 0, 0, 0xe2, 0x9c], 0), None);
    assert!(String::try_from_slice(&[1, 0, 0, 0, 0x80]).is_err());
    // the same bytes made whole are read
    assert_eq!(
        read_string(&[3, 0, 0, 0, 0xe2, 0x9c, 0x93], 0),
        Some(("\u{2713}".to_string(), 7))
    );
}

#[test]
fn a_list_is_its_item_count_and_its_items() {
    let items: Vec<u64> = vec![1, 2, 0x0102030405060708, u64::MAX];
    let mut out = vec![0xeeu8];
    write_u64_list(&mut out, &items);
    assert_eq!(&out[1..], &borsh::to_vec(&items).unwrap()[..]);
    assert_eq!(read_u64_list(&out, 1), Some((items.clone(), out.len())));
    assert_eq!(Vec::<u64>::try_from_slice(&out[1..]).unwrap(), items);

    let mut empty = Vec::new();
    write_u64_list(&mut empty, &Vec::new());
    assert_eq!(empty, vec![0, 0, 0, 0]);
    assert_eq!(read_u64_list(&empty, 0), Some((Vec::new(), 4)));

    assert_eq!(read_u64_list(&out[..out.len() - 1], 1), None);
    assert_eq!(read_u64_list(&[2, 0, 0, 0, 1, 0, 0, 0, 0, 0, 0, 0], 0), None);
    assert_eq!(read_u64_list(&[255, 255, 255, 255], 0), None);
    assert_eq!(read_u64_list(&[1, 0], 0), None);
}

#[test]
fn write_prefix_leaves_the_rest_of_the_buffer() {
    let mut slot = vec![9u8; 8];
    write_prefix(&mut slot, &vec![1, 2, 3]);
    assert_eq!(slot, vec![1, 2, 3, 9, 9, 9, 9, 9]);
    write_prefix(&mut slot, &Vec::new());
    assert_eq!(slot, vec![1, 2, 3, 9, 9, 9, 9, 9]);
    write_prefix(&mut slot, &vec![0; 8]);
    assert_eq!(slot, vec![0; 8]);
}

#[test]
fn a_list_of_addresses_is_its_item_count_and_its_items() {
    let keys: Vec<Pubkey> = vec![Pubkey::new_from_array([1; 32]), Pubkey::new_from_array([2; 32])];
    let mut out = vec![0xeeu8];
    write_key_list(&mut out, &keys);
    assert_eq!(&out[1..], &borsh::to_vec(&vec![[1u8; 32], [2u8; 32]]).unwrap()[..]);
    assert_eq!(read_key_list(&out, 1), Some((keys.clone(), out.len())));
    assert_eq!(read_key_list(&out[..out.len() - 1], 1), None);
    assert_eq!(read_key_list(&[0, 0, 0, 0], 0), Some((Vec::new(), 4)));
    assert_eq!(read_key_list(&[1, 0, 0], 0), None);
    assert!(holds_key(&keys, &Pubkey::new_from_array([2; 32])));
    assert!(!holds_key(&keys, &Pubkey::new_from_array([3; 32])));
    assert_eq!(without_key(&keys, &Pubkey::new_from_array([1; 32])), keys[1..].to_vec());
    assert_eq!(without_key(&keys, &Pubkey::new_from_array([3; 32])), keys);
}

#[test]
fn a_list_without_a_number_keeps_the_others_in_order() {
    assert_eq!(without_u64(&vec![1, 2, 1, 3, 1], 1), vec![2, 3]);
    assert_eq!(without_u64(&vec![1, 2, 3], 4), vec![1, 2, 3]);
    assert_eq!(without_u64(&Vec::new(), 4), Vec::<u64>::new());
    assert!(holds_u64(&vec![1, 2, 3], 3));
    assert!(!holds_u64(&vec![1, 2, 3], 0));
}

#[test]
fn write_at_replaces_the_bytes_from_an_offset_on() {
    let mut slot = vec![9u8; 8];
    write_at(&mut slot, 2, &vec![1, 2, 3]);
    assert_eq!(slot, vec![9, 9, 1, 2, 3, 9, 9, 9]);
    write_at(&mut slot, 8, &Vec::new());
    write_at(&mut slot, 5, &vec![7, 7, 7]);
    assert_eq!(slot, vec![9, 9, 1, 2, 3, 7, 7, 7]);
}
