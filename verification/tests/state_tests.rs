//! Tests of the protocol dispatcher, the batch pairing, and the builtin
//! bridge: the worked examples of the specification.

use cuprum::api::{
    CuprumApiRequest, CuprumApiRequestKind, CuprumApiResponseKind, Mode, Position, RequestId,
};
use cuprum::buffer::Buffer;
use cuprum::builtin::{Builtin, BuiltinAction};
use cuprum::fileio::FileIo;
use cuprum::state::EditorState;
use cuprum::vec2::UVec2;

struct NoFs;

impl FileIo for NoFs {
    fn read(&mut self, _path: &String) -> Result<String, ()> {
        Err(())
    }
    fn write(&mut self, _path: &String, _content: &String) -> Result<(), ()> {
        Ok(())
    }
}

fn editor_with(text: &str) -> EditorState {
    let mut st = EditorState::new();
    let buf = Buffer::from_text(None, text);
    st.open_buffer_with_window(buf, UVec2 { x: 80, y: 24 }).unwrap();
    st
}

fn content_of(st: &mut EditorState) -> String {
    let mut fs = NoFs;
    match st.process_request(&mut fs, CuprumApiRequestKind::GetContent(None)) {
        Some(CuprumApiResponseKind::GetContent(s)) => s,
        other => panic!("unexpected response: {:?}", other),
    }
}

/// Buffer lines `Hello`/`World`; removing the character at column 1 of
/// line 0 answers `'e'` and the buffer becomes `Hllo`/`World`.
#[test]
fn test_remove_char_example() {
    let mut st = editor_with("Hello\nWorld");
    let mut fs = NoFs;
    let r = st.process_request(
        &mut fs,
        CuprumApiRequestKind::RemoveChar(None, UVec2 { x: 1, y: 0 }),
    );
    match r {
        Some(CuprumApiResponseKind::RemoveChar(c)) => assert_eq!(c, 'e'),
        other => panic!("unexpected response: {:?}", other),
    }
    assert_eq!(content_of(&mut st), "Hllo\nWorld".to_string());
}

/// Buffer lines `Hello`/`World`; joining at line 0 gives one line
/// `HelloWorld`.
#[test]
fn test_join_lines_example() {
    let mut st = editor_with("Hello\nWorld");
    let mut fs = NoFs;
    let r = st.process_request(&mut fs, CuprumApiRequestKind::JoinLines(None, 0));
    assert!(r.is_none());
    assert_eq!(content_of(&mut st), "HelloWorld".to_string());
}

/// Buffer lines `abcdef`/`ghijkl`, visual anchor (2,0), cursor (3,1):
/// removing the selection leaves `abkl`, normal mode, and the cursor at
/// the anchor's column on the joined line.
#[test]
fn test_remove_selection_example() {
    let mut st = editor_with("abcdef\nghijkl");
    let mut fs = NoFs;
    st.process_request(&mut fs, CuprumApiRequestKind::MoveToX(None, Position::Number(2)));
    st.process_request(&mut fs, CuprumApiRequestKind::ChangeMode(Mode::Visual));
    st.process_request(&mut fs, CuprumApiRequestKind::MoveToY(None, Position::Number(1)));
    st.process_request(&mut fs, CuprumApiRequestKind::MoveToX(None, Position::Number(3)));
    match st.process_request(&mut fs, CuprumApiRequestKind::GetVisualStart(None)) {
        Some(CuprumApiResponseKind::GetVisualStart(a)) => assert_eq!(a, UVec2 { x: 2, y: 0 }),
        other => panic!("unexpected response: {:?}", other),
    }
    match st.process_request(&mut fs, CuprumApiRequestKind::GetCursor(None)) {
        Some(CuprumApiResponseKind::GetCursor(c)) => assert_eq!(c, UVec2 { x: 3, y: 1 }),
        other => panic!("unexpected response: {:?}", other),
    }

    let mut bridge = Builtin::new();
    bridge.on_action(&mut st, &mut fs, BuiltinAction::RemoveSelection).unwrap();

    assert_eq!(content_of(&mut st), "abkl".to_string());
    assert_eq!(st.get_mode(), Mode::Normal);
    match st.process_request(&mut fs, CuprumApiRequestKind::GetCursor(None)) {
        Some(CuprumApiResponseKind::GetCursor(c)) => assert_eq!(c, UVec2 { x: 2, y: 0 }),
        other => panic!("unexpected response: {:?}", other),
    }
}

/// A batch of requests against three distinct buffers: each response
/// carries its own request's sequence number and answers only its own
/// buffer — no cross-delivery.
#[test]
fn test_batch_isolation_three_buffers() {
    let mut st = EditorState::new();
    let (b0, _) = st
        .open_buffer_with_window(Buffer::from_text(None, "first"), UVec2 { x: 80, y: 24 })
        .unwrap();
    let (b1, _) = st
        .open_buffer_with_window(Buffer::from_text(None, "second"), UVec2 { x: 80, y: 24 })
        .unwrap();
    let (b2, _) = st
        .open_buffer_with_window(Buffer::from_text(None, "third"), UVec2 { x: 80, y: 24 })
        .unwrap();
    let mut fs = NoFs;
    let batch = vec![
        CuprumApiRequest { id: RequestId(7), kind: CuprumApiRequestKind::GetContent(Some(b2)) },
        CuprumApiRequest { id: RequestId(8), kind: CuprumApiRequestKind::GetContent(Some(b0)) },
        CuprumApiRequest { id: RequestId(9), kind: CuprumApiRequestKind::GetContent(Some(b1)) },
    ];
    let responses = st.process_batch(&mut fs, batch);
    assert_eq!(responses.len(), 3);
    assert_eq!(responses[0].id, RequestId(7));
    assert_eq!(responses[1].id, RequestId(8));
    assert_eq!(responses[2].id, RequestId(9));
    let texts: Vec<String> = responses
        .into_iter()
        .map(|r| match r.kind {
            Some(CuprumApiResponseKind::GetContent(s)) => s,
            other => panic!("unexpected response: {:?}", other),
        })
        .collect();
    assert_eq!(texts, vec!["third".to_string(), "first".to_string(), "second".to_string()]);
}

/// The plugin-side exchange of the worked example: request 1 asks for
/// `ChangeMode(Insert(false))`; the mode changes and the paired response
/// is `{id: 1, kind: absent}` since the operation is void.
#[test]
fn test_plugin_change_mode_example() {
    let mut st = editor_with("");
    let mut fs = NoFs;
    let batch = vec![CuprumApiRequest {
        id: RequestId(1),
        kind: CuprumApiRequestKind::ChangeMode(Mode::Insert(false)),
    }];
    let responses = st.process_batch(&mut fs, batch);
    assert_eq!(responses.len(), 1);
    assert_eq!(responses[0].id, RequestId(1));
    assert!(responses[0].kind.is_none());
    assert_eq!(st.get_mode(), Mode::Insert(false));
}

/// Requests against missing referents answer with an absent response and
/// change nothing.
#[test]
fn test_absent_referents() {
    let mut st = EditorState::new();
    let mut fs = NoFs;
    assert!(st.process_request(&mut fs, CuprumApiRequestKind::GetContent(None)).is_none());
    assert!(
        st
            .process_request(
                &mut fs,
                CuprumApiRequestKind::GetLineCount(Some(cuprum::api::BufferId(42))),
            )
            .is_none(),
    );
    assert!(
        st
            .process_request(&mut fs, CuprumApiRequestKind::GetLine(None, 0))
            .is_none(),
    );
}

/// Opening with no path makes a fresh empty buffer and answers its
/// handle; line queries out of range answer absent.
#[test]
fn test_open_and_queries() {
    let mut st = editor_with("one\ntwo");
    let mut fs = NoFs;
    let opened = st.process_request(&mut fs, CuprumApiRequestKind::OpenFile(None));
    let id = match opened {
        Some(CuprumApiResponseKind::OpenFile(id)) => id,
        other => panic!("unexpected response: {:?}", other),
    };
    match st.process_request(&mut fs, CuprumApiRequestKind::GetLineCount(Some(id))) {
        Some(CuprumApiResponseKind::GetLineCount(n)) => assert_eq!(n, 0),
        other => panic!("unexpected response: {:?}", other),
    }
    match st.process_request(&mut fs, CuprumApiRequestKind::GetLineLength(None, 1)) {
        Some(CuprumApiResponseKind::GetLineLength(n)) => assert_eq!(n, 3),
        other => panic!("unexpected response: {:?}", other),
    }
    assert!(
        st
            .process_request(&mut fs, CuprumApiRequestKind::GetLineLength(None, 2))
            .is_none(),
    );
    match st.process_request(
        &mut fs,
        CuprumApiRequestKind::GetChar(None, UVec2 { x: 1, y: 1 }),
    ) {
        Some(CuprumApiResponseKind::GetChar(c)) => assert_eq!(c, 'w'),
        other => panic!("unexpected response: {:?}", other),
    }
}

/// The builtin bridge removes the character under the cursor and the
/// line under the cursor.
#[test]
fn test_builtin_remove_actions() {
    let mut st = editor_with("xyz\nrest");
    let mut fs = NoFs;
    let mut bridge = Builtin::new();
    st.process_request(&mut fs, CuprumApiRequestKind::MoveToX(None, Position::Number(1)));
    bridge.on_action(&mut st, &mut fs, BuiltinAction::RemoveChar).unwrap();
    assert_eq!(content_of(&mut st), "xz\nrest".to_string());
    bridge.on_action(&mut st, &mut fs, BuiltinAction::RemoveLine).unwrap();
    assert_eq!(content_of(&mut st), "rest".to_string());
}
