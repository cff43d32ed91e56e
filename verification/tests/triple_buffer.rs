use totality::sync::tb_fna;
use totality::sync::tb_old;
use totality::sync::tb_sub;
use totality::sync::triple_buffer::{buffer, Editor, Reader, TripleBuffer};

#[test]
fn fna_default_indices() {
    let ii = tb_fna::TripleBufferIndices::default();
    assert_eq!(ii.snatched_read, 0);
    assert_eq!(ii.edit_rw, (1, 2));
    assert_eq!(ii.packed, 2);
}

#[test]
fn fna_snatch_takes_back_buffer_once() {
    let mut ii = tb_fna::TripleBufferIndices::default();
    ii.snatch();
    assert_eq!(ii.snatched_read, 1);
    assert_eq!(ii.packed, 255);
    assert_eq!(ii.edit_rw, (1, 2));
    // nothing new was published: a second snatch changes nothing
    ii.snatch();
    assert_eq!(ii.snatched_read, 1);
    assert_eq!(ii.packed, 255);
}

#[test]
fn fna_publish_then_snatch_reads_the_written_buffer() {
    let mut ii = tb_fna::TripleBufferIndices::default();
    ii.snatch();
    ii.advance();
    assert_eq!(ii.edit_rw, (2, 0));
    assert_eq!(ii.packed, 1);
    ii.snatch();
    assert_eq!(ii.snatched_read, 2);
    assert_eq!(ii.packed, 254);
    assert_ne!(ii.snatched_read, ii.edit_rw.1);
}

#[test]
fn fna_latest_publication_wins() {
    let mut ii = tb_fna::TripleBufferIndices::default();
    ii.advance();
    let first = ii.edit_rw.0;
    ii.advance();
    let second = ii.edit_rw.0;
    assert_ne!(first, second);
    ii.snatch();
    assert_eq!(ii.snatched_read, second);
}

#[test]
fn fna_interleavings_never_alias() {
    let mut ii = tb_fna::TripleBufferIndices::default();
    let ops = [true, false, false, true, true, false, true, false, false, false, true];
    for op in ops.iter() {
        if *op {
            ii.snatch();
        } else {
            ii.advance();
        }
        assert_ne!(ii.snatched_read, ii.edit_rw.1);
        assert_ne!(ii.edit_rw.0, ii.edit_rw.1);
        assert!(ii.snatched_read < 3 && ii.edit_rw.1 < 3);
    }
}

#[test]
fn sub_indices_alias_after_first_publish() {
    let mut ii = tb_sub::TripleBufferIndices::default();
    assert_eq!(ii.snatched_read, 0);
    assert_eq!(ii.edit_rw, (1, 2));
    ii.snatch();
    assert_eq!(ii.snatched_read, 0);
    ii.advance();
    assert_eq!(ii.edit_rw, (2, 2));
    ii.snatch();
    assert_eq!(ii.snatched_read, 2);
    assert_eq!(ii.snatched_read, ii.edit_rw.1);
}

#[test]
fn old_indices_snatch_and_advance() {
    let mut ii = tb_old::TripleBufferIndices::default();
    assert_eq!(ii.snatched_read, 0);
    assert_eq!(ii.edit_rw, (1, 2));
    ii.snatch();
    assert_eq!(ii.snatched_read, 0);
    ii.advance();
    assert_eq!(ii.edit_rw, (2, 2));
    ii.snatch();
    assert_eq!(ii.snatched_read, 2);
}

#[test]
fn triple_buffer_raw_starts_with_copies() {
    let tb = TripleBuffer::raw(7u32);
    assert_eq!(*tb.reader_r(), 7);
    assert_eq!(*tb.editor_r(), 7);
}

#[test]
fn triple_buffer_write_publish_read() {
    let mut tb = TripleBuffer::raw(0u32);
    *tb.editor_w() = 5;
    assert_eq!(*tb.reader_r(), 0);
    tb.advance();
    assert_eq!(*tb.editor_r(), 5);
    assert_eq!(*tb.reader_r(), 0);
    tb.snatch();
    assert_eq!(*tb.reader_r(), 5);
}

#[test]
fn handles_write_commit_grab_fetch() {
    let (reader, editor, mut tb) = buffer(10i32);
    let editor = editor.grab(&tb).ok().unwrap();
    {
        let pair = editor.fetch(&mut tb).ok().unwrap();
        assert_eq!(*pair.r, 10);
        *pair.w = 42;
    }
    let editor = editor.commit(&mut tb).ok().unwrap();
    assert!(matches!(editor, Editor::Free));
    let reader = reader.grab(&mut tb).ok().unwrap();
    assert_eq!(*reader.fetch(&tb).ok().unwrap(), 42);
    assert_eq!(*reader.fetch_unsafe(&tb), 42);
    let editor = editor.grab_always(&tb);
    let pair = editor.fetch_unsafe(&mut tb);
    assert_eq!(*pair.r, 42);
}

#[test]
fn reader_errors() {
    let (reader, _editor, mut tb) = buffer(1u8);
    assert!(reader.fetch(&tb).is_err());
    let released = reader.release();
    let reader = match released {
        Err(e) => e.0,
        Ok(_) => panic!("a free reader cannot be released"),
    };
    let reader = reader.grab(&mut tb).ok().unwrap();
    let again = reader.grab(&mut tb);
    let reader = match again {
        Err(e) => e.0,
        Ok(_) => panic!("a locked reader cannot be grabbed"),
    };
    assert!(matches!(reader, Reader::Locked(_)));
    let reader = reader.grab_always(&mut tb);
    assert!(matches!(reader, Reader::Locked(_)));
    let reader = reader.release().ok().unwrap();
    assert!(matches!(reader, Reader::Free));
    let reader = reader.release_always();
    assert!(matches!(reader, Reader::Free));
}

#[test]
fn editor_errors() {
    let (_reader, editor, mut tb) = buffer(1u8);
    assert!(editor.fetch(&mut tb).is_err());
    let editor = match editor.commit(&mut tb) {
        Err(e) => e.0,
        Ok(_) => panic!("a free editor cannot commit"),
    };
    let editor = editor.grab(&tb).ok().unwrap();
    let editor = match editor.grab(&tb) {
        Err(e) => e.0,
        Ok(_) => panic!("a locked editor cannot be grabbed"),
    };
    let editor = editor.commit_always(&mut tb);
    assert!(matches!(editor, Editor::Free));
    let editor = editor.commit_always(&mut tb);
    assert!(matches!(editor, Editor::Free));
}

#[test]
fn reader_keeps_its_copy_while_editor_publishes() {
    let (reader, editor, mut tb) = buffer(0u64);
    let reader = reader.grab(&mut tb).ok().unwrap();
    let mut editor = editor;
    for v in 1..5u64 {
        editor = editor.grab(&tb).ok().unwrap();
        {
            let pair = editor.fetch(&mut tb).ok().unwrap();
            *pair.w = v;
        }
        editor = editor.commit(&mut tb).ok().unwrap();
        assert_eq!(*reader.fetch(&tb).ok().unwrap(), 0);
    }
    let reader = reader.release().ok().unwrap();
    let reader = reader.grab(&mut tb).ok().unwrap();
    assert_eq!(*reader.fetch(&tb).ok().unwrap(), 4);
}
