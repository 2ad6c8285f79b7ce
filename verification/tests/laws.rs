use flex_vector::laws::edit_and_keep;
use flex_vector::FlexVector;

fn forward(vec: &FlexVector) -> Vec<u8> {
    vec.bytes().collect()
}

fn backward(vec: &FlexVector) -> Vec<u8> {
    vec.reverse_bytes().collect()
}

fn sample() -> FlexVector {
    FlexVector::new().push_back_string("ABCDEFGHIJKLMNOP")
}

fn numbered(count: usize) -> Vec<u8> {
    (0..count).map(|i| (i * 7 + 3) as u8).collect()
}

fn built(bytes: &[u8]) -> FlexVector {
    let mut vec = FlexVector::new();
    for byte in bytes {
        vec = vec.push_back(*byte);
    }
    vec
}

#[test]
fn edits_leave_the_edited_buffer_unchanged() {
    let base = sample();
    let other = FlexVector::new().push_back_string("xyz");

    let _ = base.push_back(b'!');
    let _ = base.push_back_char('é');
    let _ = base.push_back_string("tail");
    let _ = base.push_front(b'!');
    let _ = base.push_front_char('é');
    let _ = base.push_front_string("head");
    let _ = base.insert(4, b'!').unwrap();
    let _ = base.insert_char(4, 'é').unwrap();
    let _ = base.insert_string(4, "middle").unwrap();
    let _ = base.delete(4).unwrap();
    let _ = base.delete_range(2, 9).unwrap();
    let _ = base.concat(&other);
    let _ = other.concat(&base);

    assert_eq!(forward(&base), b"ABCDEFGHIJKLMNOP".to_vec());
    assert_eq!(base.len(), 16);
    assert_eq!(forward(&other), b"xyz".to_vec());
}

#[test]
fn a_buffer_comes_back_from_an_edit_as_it_went_in() {
    let (kept, edited) = edit_and_keep(sample(), |vec| vec.push_back(b'!'));
    assert_eq!(forward(&kept), b"ABCDEFGHIJKLMNOP".to_vec());
    assert_eq!(forward(&edited), b"ABCDEFGHIJKLMNOP!".to_vec());

    let (kept, edited) = edit_and_keep(kept, |vec| vec.delete_range(0, 16).unwrap());
    assert_eq!(forward(&kept), b"ABCDEFGHIJKLMNOP".to_vec());
    assert_eq!(kept.len(), 16);
    assert_eq!(edited.len(), 0);

    let (kept, edited) = edit_and_keep(kept, |vec| vec.insert_string(8, "--").unwrap());
    assert_eq!(forward(&kept), b"ABCDEFGHIJKLMNOP".to_vec());
    assert_eq!(forward(&edited), b"ABCDEFGH--IJKLMNOP".to_vec());
}

#[test]
fn old_and_new_versions_are_edited_independently() {
    let base = sample();
    let left = base.insert_string(8, "<left>").unwrap();
    let right = base.delete_range(4, 12).unwrap();
    let left_again = left.push_back(b'1');
    let base_again = base.push_back(b'2');

    assert_eq!(forward(&base), b"ABCDEFGHIJKLMNOP".to_vec());
    assert_eq!(forward(&left), b"ABCDEFGH<left>IJKLMNOP".to_vec());
    assert_eq!(forward(&right), b"ABCDMNOP".to_vec());
    assert_eq!(forward(&left_again), b"ABCDEFGH<left>IJKLMNOP1".to_vec());
    assert_eq!(forward(&base_again), b"ABCDEFGHIJKLMNOP2".to_vec());
}

#[test]
fn len_is_the_number_of_bytes_a_traversal_produces() {
    for count in [0usize, 1, 2, 63, 64, 65, 128, 129, 1000] {
        let vec = built(&numbered(count));
        assert_eq!(vec.len(), count);
        assert_eq!(vec.bytes().count(), count);
        assert_eq!(vec.reverse_bytes().count(), count);
    }
}

#[test]
fn backward_traversal_reversed_is_forward_traversal() {
    for count in [0usize, 1, 2, 63, 64, 65, 128, 129, 1000] {
        let bytes = numbered(count);
        let vec = built(&bytes);
        let mut back = backward(&vec);
        back.reverse();
        assert_eq!(forward(&vec), bytes);
        assert_eq!(back, bytes);
    }
}

#[test]
fn pushing_onto_the_empty_buffer_reads_back_what_was_pushed() {
    assert_eq!(forward(&FlexVector::new().push_back(b'x')), b"x".to_vec());
    assert_eq!(forward(&FlexVector::new().push_front(b'x')), b"x".to_vec());
    assert_eq!(forward(&FlexVector::new().push_back_string("hello")), b"hello".to_vec());
    assert_eq!(forward(&FlexVector::new().push_front_string("hello")), b"hello".to_vec());
    assert_eq!(forward(&FlexVector::new().push_back_char('h')), b"h".to_vec());
    assert_eq!(forward(&FlexVector::new().push_front_char('h')), b"h".to_vec());
}

#[test]
fn push_front_after_push_back_puts_the_later_first() {
    let vec = FlexVector::new().push_back_string("A").push_front_string("B");
    assert_eq!(forward(&vec), b"BA".to_vec());
}

#[test]
fn insert_past_the_end_is_absent() {
    let vec = sample();
    assert!(vec.insert(17, b'x').is_none());
    assert!(vec.insert_char(17, 'x').is_none());
    assert!(vec.insert_string(17, "x").is_none());
    assert!(vec.insert(usize::MAX, b'x').is_none());
    assert!(FlexVector::new().insert(1, b'x').is_none());
    assert_eq!(forward(&vec), b"ABCDEFGHIJKLMNOP".to_vec());
}

#[test]
fn insert_at_the_end_is_push_back() {
    let vec = sample();
    assert_eq!(forward(&vec.insert(16, b'x').unwrap()), forward(&vec.push_back(b'x')));
    assert_eq!(forward(&vec.insert_char(16, 'é').unwrap()), forward(&vec.push_back_char('é')));
    assert_eq!(
        forward(&vec.insert_string(16, "xyz").unwrap()),
        forward(&vec.push_back_string("xyz"))
    );
    assert_eq!(forward(&vec.insert(16, b'x').unwrap()), b"ABCDEFGHIJKLMNOPx".to_vec());
    let empty = FlexVector::new();
    assert_eq!(forward(&empty.insert(0, b'x').unwrap()), b"x".to_vec());
}

#[test]
fn insert_at_the_front_is_push_front() {
    let vec = sample();
    assert_eq!(forward(&vec.insert(0, b'x').unwrap()), forward(&vec.push_front(b'x')));
    assert_eq!(forward(&vec.insert_char(0, 'é').unwrap()), forward(&vec.push_front_char('é')));
    assert_eq!(
        forward(&vec.insert_string(0, "xyz").unwrap()),
        forward(&vec.push_front_string("xyz"))
    );
    assert_eq!(forward(&vec.insert(0, b'x').unwrap()), b"xABCDEFGHIJKLMNOP".to_vec());
}

#[test]
fn deleting_everything_gives_the_empty_buffer() {
    for count in [1usize, 2, 64, 65, 1000] {
        let vec = built(&numbered(count));
        let gone = vec.delete_range(0, vec.len()).unwrap();
        assert_eq!(gone.len(), 0);
        assert_eq!(forward(&gone), Vec::<u8>::new());
        assert!(!gone.bytes().has_next());
        assert_eq!(vec.len(), count);
    }
}

#[test]
fn deleting_everything_of_the_empty_buffer_is_an_empty_range() {
    let empty = FlexVector::new();
    assert!(empty.delete_range(0, empty.len()).is_none());
}

#[test]
fn concat_gives_the_same_bytes_however_it_is_grouped() {
    let a = built(&numbered(100));
    let b = FlexVector::new().push_back_string("middle");
    let c = built(&numbered(300));
    let left = a.concat(&b).concat(&c);
    let right = a.concat(&b.concat(&c));

    let mut expected = numbered(100);
    expected.extend_from_slice(b"middle");
    expected.extend_from_slice(&numbered(300));
    assert_eq!(forward(&left), expected);
    assert_eq!(forward(&right), expected);
    assert_eq!(left.len(), 406);
    assert_eq!(right.len(), 406);
}

#[test]
fn appends_in_a_row() {
    let vec = FlexVector::new().push_back(b'A').push_back_string("B").push_back_string("CD");
    assert_eq!(forward(&vec), b"ABCD".to_vec());
}

#[test]
fn prepends_in_a_row() {
    let vec = FlexVector::new().push_front(b'A').push_front_string("B").push_front_string("CD");
    assert_eq!(forward(&vec), b"CDBA".to_vec());
}

#[test]
fn inserts_in_a_row() {
    let first = sample().insert(0, b'A').unwrap();
    assert_eq!(forward(&first), b"AABCDEFGHIJKLMNOP".to_vec());
    let second = first.insert(3, b'C').unwrap();
    assert_eq!(forward(&second), b"AABCCDEFGHIJKLMNOP".to_vec());
    let third = second.insert_string(9, "XYZ").unwrap();
    assert_eq!(forward(&third), b"AABCCDEFGXYZHIJKLMNOP".to_vec());
}

#[test]
fn deletes_from_one_version() {
    let vec = sample();
    assert_eq!(vec.len(), 16);
    assert_eq!(forward(&vec.delete_range(0, 16).unwrap()), b"".to_vec());
    assert_eq!(forward(&vec.delete_range(2, 4).unwrap()), b"ABEFGHIJKLMNOP".to_vec());
}
