use harmony::archive::{find_file, find_in_files, ArchiveError, ArchiveFile};

fn header(name: &[u8], size: usize) -> [u8; 512] {
    let mut h = [0u8; 512];
    h[..name.len()].copy_from_slice(name);
    h[100..107].copy_from_slice(b"0000644");
    h[108..115].copy_from_slice(b"0000000");
    h[116..123].copy_from_slice(b"0000000");
    let size = format!("{:011o}", size);
    h[124..135].copy_from_slice(size.as_bytes());
    h[136..147].copy_from_slice(b"00000000000");
    h[156] = b'0';
    h[257..263].copy_from_slice(b"ustar\0");
    h[263..265].copy_from_slice(b"00");
    let sum: u32 = h.iter().enumerate().map(|(i, &b)| if (148..156).contains(&i) { b' ' as u32 } else { b as u32 }).sum();
    let cksum = format!("{:06o}\0 ", sum);
    h[148..156].copy_from_slice(cksum.as_bytes());
    h
}

fn archive(files: &[(&[u8], &[u8])]) -> Vec<u8> {
    let mut out = Vec::new();
    for (name, data) in files {
        out.extend_from_slice(&header(name, data.len()));
        out.extend_from_slice(data);
        let pad = (512 - data.len() % 512) % 512;
        out.extend(std::iter::repeat(0u8).take(pad));
    }
    out.extend(std::iter::repeat(0u8).take(1024));
    out
}

#[test]
fn finds_a_file_by_name() {
    let bytes = archive(&[(b"memory_manager", b"mm code"), (b"booter", b"boot code")]);
    assert_eq!(find_file(&bytes, "booter").unwrap(), b"boot code".to_vec());
    assert_eq!(find_file(&bytes, "memory_manager").unwrap(), b"mm code".to_vec());
    assert_eq!(find_file(&bytes, "init").unwrap_err(), ArchiveError::Missing);
}

#[test]
fn refuses_a_bad_archive() {
    assert_eq!(find_file(&[1, 2, 3], "booter").unwrap_err(), ArchiveError::BadArchive);
    let mut bytes = archive(&[(b"booter", b"x")]);
    bytes[0] ^= 1;
    assert_eq!(find_file(&bytes, "booter").unwrap_err(), ArchiveError::BadArchive);
}

#[test]
fn stops_at_a_name_that_is_not_utf8() {
    let files = vec![
        ArchiveFile { name: Some("a".to_string()), data: vec![1] },
        ArchiveFile { name: None, data: vec![2] },
        ArchiveFile { name: Some("b".to_string()), data: vec![3] },
    ];
    assert_eq!(find_in_files(&files, "a").unwrap(), vec![1]);
    assert_eq!(find_in_files(&files, "b").unwrap_err(), ArchiveError::InvalidEntry);
    let bytes = archive(&[(&[0xff, 0xfe], b"bad"), (b"booter", b"x")]);
    assert_eq!(find_file(&bytes, "booter").unwrap_err(), ArchiveError::InvalidEntry);
}
