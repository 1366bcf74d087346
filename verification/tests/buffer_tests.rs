//! Tests of the buffer engine: line edits, flat-offset edits, and the
//! round trip between positions and offsets.

use cuprum::buffer::Buffer;
use cuprum::content::BufferContent;
use cuprum::fileio::FileIo;
use cuprum::vec2::UVec2;

struct FailFs;

impl FileIo for FailFs {
    fn read(&mut self, _path: &String) -> Result<String, ()> {
        Err(())
    }
    fn write(&mut self, _path: &String, _content: &String) -> Result<(), ()> {
        Err(())
    }
}

struct MemFs {
    files: Vec<(String, String)>,
}

impl FileIo for MemFs {
    fn read(&mut self, path: &String) -> Result<String, ()> {
        for (p, c) in &self.files {
            if p == path {
                return Ok(c.clone());
            }
        }
        Err(())
    }
    fn write(&mut self, path: &String, content: &String) -> Result<(), ()> {
        self.files.push((path.clone(), content.clone()));
        Ok(())
    }
}

#[test]
fn test_buf() {
    let mut buf = Buffer::default();
    assert_eq!(buf.remove_line(0), None);
    assert_eq!(buf.remove_line(1), None);

    buf.insert_line(0, "test line".to_string());
    assert_eq!(buf.remove_line(0), Some("test line".to_string()));
    assert_eq!(buf.remove_line(0), None);
}

#[test]
fn test_insert_remove_char() {
    let mut buf = Buffer::default();
    buf.insert_line(0, "Hello".to_string());
    buf.insert_line(1, "World".to_string());

    assert_eq!(buf.get_char(0, 0), Some('H'));
    assert_eq!(buf.get_char(4, 0), Some('o'));
    assert_eq!(buf.get_char(0, 1), Some('W'));
    assert_eq!(buf.get_char(4, 1), Some('d'));
    assert_eq!(buf.get_char(5, 1), None);

    assert_eq!(buf.remove_char(1, 0), Some('e'));
    assert_eq!(buf.get_line(0), Some("Hllo".to_string()));
    assert_eq!(buf.remove_char(10, 0), None);
}

#[test]
fn test_insert_remove_line() {
    let mut buf = Buffer::default();
    assert_eq!(buf.remove_line(0), None);
    assert_eq!(buf.remove_line(1), None);

    buf.insert_line(0, "first line".to_string());
    buf.insert_line(1, "second line".to_string());

    assert_eq!(buf.get_line_count(), 2);
    assert_eq!(buf.get_line(0), Some("first line".to_string()));
    assert_eq!(buf.get_line(1), Some("second line".to_string()));

    assert_eq!(buf.remove_line(0), Some("first line".to_string()));
    assert_eq!(buf.remove_line(0), Some("second line".to_string()));
    assert_eq!(buf.remove_line(0), None);
    assert_eq!(buf.get_line_count(), 0);
}

#[test]
fn test_split_join_line() {
    let mut buf = Buffer::default();
    buf.insert_line(0, "HelloWorld".to_string());

    buf.split_line(5, 0);
    assert_eq!(buf.get_line_count(), 2);
    assert_eq!(buf.get_line(0), Some("Hello".to_string()));
    assert_eq!(buf.get_line(1), Some("World".to_string()));

    buf.join_lines(0);
    assert_eq!(buf.get_line_count(), 1);
    assert_eq!(buf.get_line(0), Some("HelloWorld".to_string()));
}

/// Replaying a sequence of flat-offset inserts and removes on the store
/// gives the same text as applying the same edits to a plain string
/// (ASCII input, so character and byte offsets agree).
#[test]
fn test_round_trip_against_string_model() {
    let mut content = BufferContent::new();
    let mut model = String::new();

    let edits: Vec<(bool, usize, usize, &str)> = vec![
        (true, 0, 0, "hello world"),
        (true, 5, 0, ",\nbig"),
        (false, 2, 8, ""),
        (true, 0, 0, "say: "),
        (true, 13, 0, "\n\nend"),
        (false, 0, 4, ""),
    ];

    for (is_insert, a, b, text) in edits {
        if is_insert {
            content.insert(a, text);
            model.insert_str(a, text);
        } else {
            let removed = content.remove(a, b);
            let expected: String = model[a..b].to_string();
            assert_eq!(removed, Some(expected));
            model.replace_range(a..b, "");
        }
        assert_eq!(content.get(), model);
    }
}

/// Removing a character at a flat offset removes exactly that character.
#[test]
fn test_remove_char_at_offset() {
    let mut content = BufferContent::from_str("ab\ncd");
    assert_eq!(content.remove_char(2), Some('\n'));
    assert_eq!(content.get(), "abcd".to_string());
    assert_eq!(content.remove_char(10), None);
    assert_eq!(content.get_char(0), Some('a'));
    assert_eq!(content.get_char(4), None);
}

/// Inverse addressing on concrete text: every valid offset maps to a
/// position and back, and every in-bounds position maps to an offset and
/// back.
#[test]
fn test_addressing_round_trip() {
    let content = BufferContent::from_str("hello\nworld\n\nabc");
    let total = content.get().chars().count();
    assert_eq!(total, 16);
    for i in 0..=total {
        let v = content.index_to_vec2(i).unwrap();
        assert_eq!(content.vec2_to_index(v), Some(i));
    }
    assert_eq!(content.index_to_vec2(total + 1), None);
    for y in 0..content.get_line_count() {
        let len = content.get_line_length(y).unwrap();
        for x in 0..=len {
            let i = content.vec2_to_index(UVec2 { x, y }).unwrap();
            assert_eq!(content.index_to_vec2(i), Some(UVec2 { x, y }));
        }
        assert_eq!(content.vec2_to_index(UVec2 { x: len + 1, y }), None);
    }
    assert_eq!(content.get_line_start(1), Some(6));
    assert_eq!(content.vec2_to_index(UVec2 { x: 2, y: 1 }), Some(8));
    assert_eq!(content.index_to_vec2(5), Some(UVec2 { x: 5, y: 0 }));
}

/// Inserting text with newlines at an offset splits it into lines.
#[test]
fn test_insert_with_newlines() {
    let mut buf = Buffer::default();
    buf.insert(0, "one\ntwo");
    assert_eq!(buf.get_line_count(), 2);
    assert_eq!(buf.get_line(0), Some("one".to_string()));
    assert_eq!(buf.get_line(1), Some("two".to_string()));
    buf.insert(3, "!\nand a half");
    assert_eq!(buf.get_content(), "one!\nand a half\ntwo".to_string());
}

/// A failed write reports the error and keeps the dirty flag; a
/// successful write clears it. A buffer with no backing file saves as a
/// no-op.
#[test]
fn test_save_paths() {
    let mut none_backed = Buffer::default();
    none_backed.insert_line(0, "x".to_string());
    let mut fail = FailFs;
    assert_eq!(none_backed.save(&mut fail), Ok(()));

    let mut mem = MemFs { files: vec![("f.txt".to_string(), "seed".to_string())] };
    let mut opened = Buffer::open(&mut mem, "f.txt".to_string()).unwrap();
    assert_eq!(opened.get_content(), "seed".to_string());
    opened.insert_char(0, 0, 'a');
    assert_eq!(opened.save(&mut fail), Err(()));
    assert_eq!(opened.save(&mut mem), Ok(()));
    assert_eq!(mem.files.last().unwrap().1, "aseed".to_string());

    let mut missing = FailFs;
    assert!(Buffer::open(&mut missing, "nope".to_string()).is_err());
}

/// Replacement operations return what they displaced.
#[test]
fn test_replace_operations() {
    let mut buf = Buffer::from_text(None, "cat\ndog");
    assert_eq!(buf.replace_char(0, 1, 'h'), Some('d'));
    assert_eq!(buf.get_line(1), Some("hog".to_string()));
    assert_eq!(buf.replace_line(0, "bat".to_string()), Some("cat".to_string()));
    assert_eq!(buf.replace_char(9, 0, 'z'), None);
    let old = buf.replace_content("new\ntext".to_string());
    assert_eq!(old, "bat\nhog".to_string());
    assert_eq!(buf.get_lines(), vec!["new".to_string(), "text".to_string()]);
    let older = buf.replace_all_lines(vec!["a".to_string(), "b".to_string()]);
    assert_eq!(older, vec!["new".to_string(), "text".to_string()]);
    assert_eq!(buf.get_content(), "a\nb".to_string());
}
