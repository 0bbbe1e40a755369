use icc::{read_integer, read_number, read_program, ImageError};

#[test]
fn numbers_are_read_with_or_without_sign() {
    assert_eq!(read_integer("0"), Some(0));
    assert_eq!(read_integer("7"), Some(7));
    assert_eq!(read_integer("-7"), Some(-7));
    assert_eq!(read_integer("+7"), Some(7));
    assert_eq!(read_integer("-0"), Some(0));
    assert_eq!(read_integer("0012"), Some(12));
    assert_eq!(read_integer("1234567890"), Some(1234567890));
    assert_eq!(read_number(&vec!['-', '4', '2']), Some(-42));
}

#[test]
fn numbers_reach_to_the_ends_of_a_cell() {
    assert_eq!(read_integer("9223372036854775807"), Some(i64::MAX));
    assert_eq!(read_integer("-9223372036854775808"), Some(i64::MIN));
    assert_eq!(read_integer("9223372036854775808"), None);
    assert_eq!(read_integer("-9223372036854775809"), None);
    assert_eq!(read_integer("99999999999999999999999999999999999999999999"), None);
    assert_eq!(
        read_integer("00000000000000000000000000000000000000000000000000017"),
        Some(17)
    );
}

#[test]
fn what_is_no_number_is_refused() {
    for text in ["", "-", "+", "--1", "+-1", "1-", "1 ", " 1", "1.5", "a", "12a", "0x10", "١"] {
        assert_eq!(read_integer(text), None);
    }
}

#[test]
fn program_is_a_list_of_numbers() {
    assert_eq!(read_program("1,2,3"), Ok(vec![1, 2, 3]));
    assert_eq!(read_program("99"), Ok(vec![99]));
    assert_eq!(read_program("109, -1,+4 , 0"), Ok(vec![109, -1, 4, 0]));
}

#[test]
fn line_breaks_count_as_commas() {
    assert_eq!(read_program("1,2,\n3\n4"), Ok(vec![1, 2, 3, 4]));
    assert_eq!(
        read_program("2105,1,7,\n1101,5,6,0,\n99"),
        Ok(vec![2105, 1, 7, 1101, 5, 6, 0, 99])
    );
    assert_eq!(read_program("1 , \n 2"), Ok(vec![1, 2]));
}

#[test]
fn malformed_cell_is_reported_by_its_index() {
    assert_eq!(read_program(""), Err(ImageError::MalformedCell(0)));
    assert_eq!(read_program("1,2\n"), Err(ImageError::MalformedCell(2)));
    assert_eq!(read_program("1,,2"), Err(ImageError::MalformedCell(1)));
    assert_eq!(read_program("1,2,\n\n3"), Err(ImageError::MalformedCell(2)));
    assert_eq!(read_program("1,x,y"), Err(ImageError::MalformedCell(1)));
    assert_eq!(read_program("1,2\r\n3"), Err(ImageError::MalformedCell(1)));
    assert_eq!(
        read_program("1,9223372036854775808"),
        Err(ImageError::MalformedCell(1))
    );
}
