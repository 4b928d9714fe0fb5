use ofc_viewer::file_container::{cover_span, header_size, ContainerError, FileContainer, Span};

fn build(entries: &[&[u8]]) -> Vec<u8> {
    let mut out = b"ofc\0".to_vec();
    out.extend_from_slice(&(entries.len() as u32).to_le_bytes());
    let mut end = 0u64;
    for e in entries {
        end += e.len() as u64;
        out.extend_from_slice(&end.to_le_bytes());
    }
    for e in entries {
        out.extend_from_slice(e);
    }
    out
}

#[test]
fn round_trip_of_entries() {
    let entries: [&[u8]; 4] = [b"abc", b"", b"defgh", b"i"];
    let data = build(&entries);
    let c = FileContainer::open(&data).unwrap();
    assert_eq!(c.len(), 4);
    let mut joined = Vec::new();
    for (i, e) in entries.iter().enumerate() {
        let got = c.read_at(&data, i).unwrap();
        assert_eq!(got.len(), e.len());
        assert_eq!(&got[..], *e);
        joined.extend_from_slice(&got);
    }
    assert_eq!(joined, b"abcdefghi".to_vec());
}

#[test]
fn open_reads_header_only() {
    let data = build(&[b"xy", b"z"]);
    let header = header_size(&data[..8]).unwrap();
    assert_eq!(header, 8 + 8 * 2);
    let c = FileContainer::open(&data[..header as usize]).unwrap();
    assert_eq!(c.len(), 2);
    assert_eq!(c.entry_span(0), Some(Span { start: 24, len: 2 }));
    assert_eq!(c.entry_span(1), Some(Span { start: 26, len: 1 }));
}

#[test]
fn open_refuses_bad_magic() {
    let mut data = build(&[b"a"]);
    data[0] = b'x';
    assert_eq!(FileContainer::open(&data).err(), Some(ContainerError::BadMagic));
    assert_eq!(header_size(&data).err(), Some(ContainerError::BadMagic));
}

#[test]
fn open_refuses_short_header() {
    let data = build(&[b"a", b"b"]);
    assert_eq!(FileContainer::open(&data[..5]).err(), Some(ContainerError::ShortRead));
    assert_eq!(FileContainer::open(&data[..20]).err(), Some(ContainerError::ShortRead));
    assert_eq!(header_size(&data[..7]).err(), Some(ContainerError::ShortRead));
}

#[test]
fn empty_container_opens() {
    let data = build(&[]);
    let c = FileContainer::open(&data).unwrap();
    assert_eq!(c.len(), 0);
}

#[test]
fn read_at_reports_short_file() {
    let data = build(&[b"abc", b"defg"]);
    let c = FileContainer::open(&data).unwrap();
    let cut = &data[..data.len() - 1];
    assert_eq!(c.read_at(cut, 0).unwrap(), b"abc".to_vec());
    assert_eq!(c.read_at(cut, 1).err(), Some(ContainerError::ShortRead));
}

#[test]
fn read_at_reports_corrupt_table() {
    let mut data = build(&[b"abc", b"d"]);
    // second end offset below the first
    data[16..24].copy_from_slice(&1u64.to_le_bytes());
    let c = FileContainer::open(&data).unwrap();
    assert_eq!(c.read_at(&data, 1).err(), Some(ContainerError::CorruptTable));
    assert_eq!(c.entry_span(1), None);
    assert_eq!(c.read_at(&data, 0).unwrap(), b"abc".to_vec());
}

#[test]
fn cover_span_of_first_entry() {
    let data = build(&[b"cover", b"rest"]);
    assert_eq!(cover_span(&data[..16]), Ok(Span { start: 24, len: 5 }));
    let c = FileContainer::open(&data).unwrap();
    assert_eq!(c.read_at(&data, 0).unwrap(), b"cover".to_vec());
}

#[test]
fn cover_span_errors() {
    let empty = build(&[]);
    assert_eq!(cover_span(&empty), Err(ContainerError::NoEntries));
    let data = build(&[b"a"]);
    assert_eq!(cover_span(&data[..12]), Err(ContainerError::ShortRead));
    assert_eq!(cover_span(&data[..3]), Err(ContainerError::ShortRead));
    let mut bad = data.clone();
    bad[3] = 1;
    assert_eq!(cover_span(&bad), Err(ContainerError::BadMagic));
}
