use ploy::{Fixnum, Heap, Object, Printer, Reader};
use ploy::reader::Error as ReadError;

fn read_and_print(input: &[u8]) -> Result<Vec<u8>, ReadError> {
    let mut heap = Heap::new();
    let mut reader = Reader::from(input.to_vec());
    let obj = reader.read(&mut heap)?;
    let mut printer = Printer::from(Vec::new());
    printer.print(&heap, obj).unwrap();
    Ok(printer.output)
}

#[test]
fn empty_list_round_trips() {
    assert_eq!(read_and_print(b"()").unwrap(), b"()\n");
}

#[test]
fn brackets_close_with_brackets() {
    assert_eq!(read_and_print(b"[a b]").unwrap(), b"(a b)\n");
}

#[test]
fn nested_list_round_trips_normalized() {
    assert_eq!(read_and_print(b"(a (b c))").unwrap(), b"(a (b c))\n");
    assert_eq!(read_and_print(b"( a\t( b\nc ) )").unwrap(), b"(a (b c))\n");
}

#[test]
fn unterminated_list_reports_eof() {
    assert_eq!(read_and_print(b"(a").err().unwrap(), ReadError::Eof);
    assert_eq!(read_and_print(b"").err().unwrap(), ReadError::Eof);
    assert_eq!(read_and_print(b"   ").err().unwrap(), ReadError::Eof);
}

#[test]
fn closing_delimiter_at_top_level_reports_unexpected_delim() {
    assert_eq!(read_and_print(b")").err().unwrap(), ReadError::UnexpectedDelim);
    let mut heap = Heap::new();
    let mut reader = Reader::from(b"a)".to_vec());
    let first = reader.read(&mut heap).unwrap();
    let mut printer = Printer::from(Vec::new());
    printer.print(&heap, first).unwrap();
    assert_eq!(printer.output, b"a\n");
    assert_eq!(reader.read(&mut heap).err().unwrap(), ReadError::UnexpectedDelim);
}

#[test]
fn empty_byte_array_prints_zero_bytes() {
    let mut heap = Heap::new();
    let p = ploy::GcPtr::<ploy::Array<u8>>::alloc_array(&mut heap, &Vec::new());
    let obj = Object::from_gc_ptr(p);
    let mut printer = Printer::from(Vec::new());
    printer.print(&heap, obj).unwrap();
    assert_eq!(printer.output, b"\n");
}

#[test]
fn fixnum_prints_as_decimal_signed_value() {
    let heap = Heap::new();
    let mut printer = Printer::from(Vec::new());
    printer.print(&heap, Object::from_fixnum(Fixnum::from_i64(-42))).unwrap();
    printer.print(&heap, Object::from_fixnum(Fixnum::from_i64(0))).unwrap();
    printer.print(&heap, Object::from_fixnum(Fixnum::from_i64(100500))).unwrap();
    assert_eq!(printer.output, b"-42\n0\n100500\n");
}

#[test]
fn mid_atom_eof_reports_eof() {
    // An atom is only complete once a delimiter or whitespace follows it.
    assert_eq!(read_and_print(b"abc").err().unwrap(), ReadError::Eof);
    assert_eq!(read_and_print(b"abc ").unwrap(), b"abc\n");
}

#[test]
fn deep_nesting_round_trips() {
    assert_eq!(read_and_print(b"((((x))))").unwrap(), b"((((x))))\n");
    assert_eq!(read_and_print(b"[a (b)]").unwrap(), b"(a (b))\n");
}

#[test]
fn consecutive_top_level_forms_read_in_order() {
    let mut heap = Heap::new();
    let mut reader = Reader::from(b"one (two) three ".to_vec());
    let mut printer = Printer::from(Vec::new());
    for _ in 0..3 {
        let obj = reader.read(&mut heap).unwrap();
        printer.print(&heap, obj).unwrap();
    }
    assert_eq!(printer.output, b"one\n(two)\nthree\n");
    assert_eq!(reader.read(&mut heap).err().unwrap(), ReadError::Eof);
}
