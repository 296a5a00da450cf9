use flavor::pe_utils::{
    detect_launcher_kind, LauncherKind,
    expand_dos_stub, get_launcher_type, get_pe_header_offset, is_pe_executable,
    needs_dos_stub_expansion, process_launcher_for_pspf,
};

#[test]
fn test_is_pe_executable() {
    let pe_data = b"MZ\x90\x00";
    assert!(is_pe_executable(pe_data));

    let elf_data = b"\x7fELF";
    assert!(!is_pe_executable(elf_data));

    let short_data = b"M";
    assert!(!is_pe_executable(short_data));
}

#[test]
fn test_needs_dos_stub_expansion() {
    let mut go_binary = vec![0u8; 256];
    go_binary[0] = b'M';
    go_binary[1] = b'Z';
    go_binary[0x3C..0x40].copy_from_slice(&0x80u32.to_le_bytes());
    go_binary[0x80..0x84].copy_from_slice(b"PE\x00\x00");

    assert!(needs_dos_stub_expansion(&go_binary));

    let mut rust_binary = vec![0u8; 512];
    rust_binary[0] = b'M';
    rust_binary[1] = b'Z';
    rust_binary[0x3C..0x40].copy_from_slice(&0xF0u32.to_le_bytes());
    rust_binary[0xF0..0xF4].copy_from_slice(b"PE\x00\x00");

    assert!(!needs_dos_stub_expansion(&rust_binary));
}

fn u32_at(d: &[u8], at: usize) -> u32 {
    u32::from_le_bytes([d[at], d[at + 1], d[at + 2], d[at + 3]])
}

fn put_u32(d: &mut [u8], at: usize, v: u32) {
    d[at..at + 4].copy_from_slice(&v.to_le_bytes());
}

/// A PE32+ image with its header at `pe`, two sections, a certificate table
/// and one debug directory entry.
fn sample_pe(pe: usize) -> Vec<u8> {
    let mut d = vec![0u8; 0x800];
    d[0] = b'M';
    d[1] = b'Z';
    put_u32(&mut d, 0x3C, pe as u32);
    d[pe..pe + 4].copy_from_slice(b"PE\x00\x00");
    let coff = pe + 4;
    d[coff + 2..coff + 4].copy_from_slice(&2u16.to_le_bytes());
    d[coff + 16..coff + 18].copy_from_slice(&240u16.to_le_bytes());
    let opt = coff + 20;
    d[opt..opt + 2].copy_from_slice(&0x20Bu16.to_le_bytes());
    put_u32(&mut d, opt + 60, 0x200);
    put_u32(&mut d, opt + 64, 0xDEADBEEF);
    let dd = opt + 112;
    put_u32(&mut d, dd + 32, 0x600);
    put_u32(&mut d, dd + 36, 0x10);
    put_u32(&mut d, dd + 48, 0x1000);
    put_u32(&mut d, dd + 52, 28);
    let st = opt + 240;
    put_u32(&mut d, st + 8, 0x100);
    put_u32(&mut d, st + 12, 0x1000);
    put_u32(&mut d, st + 20, 0x400);
    put_u32(&mut d, st + 40 + 20, 0);
    put_u32(&mut d, 0x400 + 24, 0x500);
    d
}

#[test]
fn go_launcher_passes_through_unchanged() {
    let launcher = sample_pe(0x80);
    assert_eq!(get_launcher_type(&launcher), "go");
    let out = process_launcher_for_pspf(launcher.clone()).unwrap();
    assert_eq!(out, launcher);
    assert_eq!(&out[..0x80], &launcher[..0x80]);
}

#[test]
fn stub_expansion_moves_header_and_fixes_offsets() {
    let launcher = sample_pe(0x80);
    let out = expand_dos_stub(launcher.clone()).unwrap();
    assert_eq!(out.len(), launcher.len() + 0x70);
    assert_eq!(u32_at(&out, 0x3C), 0xF0);
    assert_eq!(get_pe_header_offset(&out), Some(0xF0));
    let opt = 0xF4 + 20;
    assert_eq!(u32_at(&out, opt + 60), 0x200 + 0x70);
    assert_eq!(u32_at(&out, opt + 64), 0);
    let dd = opt + 112;
    assert_eq!(u32_at(&out, dd + 32), 0x600 + 0x70);
    let st = opt + 240;
    assert_eq!(u32_at(&out, st + 20), 0x400 + 0x70);
    assert_eq!(u32_at(&out, st + 40 + 20), 0);
    assert_eq!(u32_at(&out, 0x470 + 24), 0x500 + 0x70);
}

#[test]
fn stub_already_wide_is_left_alone() {
    let launcher = sample_pe(0xF0);
    let out = expand_dos_stub(launcher.clone()).unwrap();
    assert_eq!(out, launcher);
}

#[test]
fn non_pe_is_rejected_by_expansion() {
    assert!(expand_dos_stub(b"\x7fELF".to_vec()).is_err());
    let elf = vec![0x7f, b'E', b'L', b'F', 0, 0];
    assert_eq!(process_launcher_for_pspf(elf.clone()).unwrap(), elf);
}

#[test]
fn rust_launcher_with_short_stub_is_expanded() {
    let mut launcher = sample_pe(0x80);
    launcher[0x700..0x70A].copy_from_slice(b"rust_panic");
    assert_eq!(detect_launcher_kind(&launcher), LauncherKind::Rust);
    assert_eq!(get_launcher_type(&launcher), "rust");
    let out = process_launcher_for_pspf(launcher.clone()).unwrap();
    assert_eq!(out, expand_dos_stub(launcher.clone()).unwrap());
    assert_eq!(out.len(), launcher.len() + 0x70);
    assert_eq!(u32_at(&out, 0x3C), 0xF0);
    assert_eq!(get_pe_header_offset(&out), Some(0xF0));
    assert_eq!(&out[..0x3C], &launcher[..0x3C]);
    assert!(out[0x80..0xF0].iter().all(|&b| b == 0));
}

#[test]
fn go_markers_win_over_the_stub() {
    let mut launcher = sample_pe(0xF0);
    launcher[0x700..0x70A].copy_from_slice(b"go.buildid");
    assert_eq!(detect_launcher_kind(&launcher), LauncherKind::Go);
    assert_eq!(process_launcher_for_pspf(launcher.clone()).unwrap(), launcher);
    assert_eq!(detect_launcher_kind(b"plain"), LauncherKind::Unknown);
}
