use nss_alexandria::types::{
    group, nss_status, passwd, spwd, AlexandriaGroup, AlexandriaPassword, AlexandriaShadow,
};
use nss_alexandria::util::{write_group, write_passwd, write_shadow, SLOT_BYTES};

const ADDRESS: usize = 0x7000;

fn gary() -> AlexandriaPassword {
    AlexandriaPassword {
        pw_name: String::from("gary"),
        pw_passwd: String::from("x"),
        pw_uid: 100,
        pw_gid: 100,
        pw_gecos: String::from("User Information"),
        pw_dir: String::from("/home/gary"),
        pw_shell: String::from("/bin/bash"),
    }
}

fn testgroup() -> AlexandriaGroup {
    AlexandriaGroup {
        gr_name: String::from("testgroup1"),
        gr_passwd: String::from("x"),
        gr_gid: 6000,
        gr_mem: vec![String::from("alice"), String::from("bob"), String::from("carol")],
    }
}

fn testshadow() -> AlexandriaShadow {
    AlexandriaShadow {
        sp_namp: String::from("testuser1"),
        sp_pwdp: String::from("$1$BXZIu72k$S7oxt9hBiBl/O3Rm3H4Q30"),
        sp_lstchg: 16034,
        sp_min: 0,
        sp_max: 99999,
        sp_warn: 7,
        sp_inact: -1,
        sp_expire: -1,
        sp_flag: 0,
    }
}

fn empty_passwd() -> passwd {
    passwd { pw_name: 0, pw_passwd: 0, pw_uid: 0, pw_gid: 0, pw_gecos: 0, pw_dir: 0, pw_shell: 0 }
}

fn empty_group() -> group {
    group { gr_name: 0, gr_passwd: 0, gr_gid: 0, gr_mem: 0 }
}

fn empty_spwd() -> spwd {
    spwd {
        sp_namp: 0,
        sp_pwdp: 0,
        sp_lstchg: 0,
        sp_min: 0,
        sp_max: 0,
        sp_warn: 0,
        sp_inact: 0,
        sp_expire: 0,
        sp_flag: 0,
    }
}

/// The NUL-terminated string that starts at `address` in a buffer at `base`.
fn c_string(buffer: &[u8], base: usize, address: usize) -> Vec<u8> {
    let start = address - base;
    let end = start + buffer[start..].iter().position(|b| *b == 0).unwrap();
    buffer[start..end].to_vec()
}

/// The address held by the table entry at `address` in a buffer at `base`.
fn table_entry(buffer: &[u8], base: usize, address: usize) -> usize {
    let start = address - base;
    let mut bytes = [0u8; 8];
    bytes.copy_from_slice(&buffer[start..start + 8]);
    u64::from_le_bytes(bytes) as usize
}

const GARY_BYTES: &[u8] = b"gary\0x\0User Information\0/home/gary\0/bin/bash\0";

#[test]
fn write_passwd_places_the_strings_in_order() {
    let mut buffer = vec![0xAAu8; 200];
    let mut result = empty_passwd();
    let mut errno = 77;
    let status = write_passwd(gary(), &mut result, ADDRESS, &mut buffer, &mut errno);
    assert_eq!(status, nss_status::NSS_STATUS_SUCCESS);
    assert_eq!(errno, 77);
    assert_eq!(
        result,
        passwd {
            pw_name: ADDRESS,
            pw_passwd: ADDRESS + 5,
            pw_uid: 100,
            pw_gid: 100,
            pw_gecos: ADDRESS + 7,
            pw_dir: ADDRESS + 24,
            pw_shell: ADDRESS + 35,
        }
    );
    let mut expected = GARY_BYTES.to_vec();
    expected.resize(200, 0);
    assert_eq!(buffer, expected);
    assert_eq!(c_string(&buffer, ADDRESS, result.pw_dir), b"/home/gary".to_vec());
    assert_eq!(c_string(&buffer, ADDRESS, result.pw_shell), b"/bin/bash".to_vec());
}

#[test]
fn write_passwd_fits_exactly() {
    assert_eq!(GARY_BYTES.len(), 45);
    let mut buffer = vec![0xAAu8; 45];
    let mut result = empty_passwd();
    let mut errno = 0;
    let status = write_passwd(gary(), &mut result, ADDRESS, &mut buffer, &mut errno);
    assert_eq!(status, nss_status::NSS_STATUS_SUCCESS);
    assert_eq!(errno, 0);
    assert_eq!(buffer, GARY_BYTES.to_vec());
}

#[test]
fn write_passwd_one_byte_short_is_out_of_range() {
    let mut buffer = vec![0xAAu8; 44];
    let before = passwd {
        pw_name: 1,
        pw_passwd: 2,
        pw_uid: 3,
        pw_gid: 4,
        pw_gecos: 5,
        pw_dir: 6,
        pw_shell: 7,
    };
    let mut result = before;
    let mut errno = 0;
    let status = write_passwd(gary(), &mut result, ADDRESS, &mut buffer, &mut errno);
    assert_eq!(status, nss_status::NSS_STATUS_TRYAGAIN);
    assert_eq!(errno, libc::ERANGE);
    assert_eq!(result, before);
    // The four strings that fit are in; the shell is not.
    let mut expected = b"gary\0x\0User Information\0/home/gary\0".to_vec();
    expected.resize(44, 0);
    assert_eq!(buffer, expected);
}

#[test]
fn write_passwd_into_no_buffer_is_out_of_range() {
    let mut buffer: Vec<u8> = Vec::new();
    let mut result = empty_passwd();
    let mut errno = 0;
    let status = write_passwd(gary(), &mut result, ADDRESS, &mut buffer, &mut errno);
    assert_eq!(status, nss_status::NSS_STATUS_TRYAGAIN);
    assert_eq!(errno, libc::ERANGE);
    assert_eq!(result, empty_passwd());
}

#[test]
fn write_passwd_refuses_a_nul_byte_untouched() {
    let mut entry = gary();
    entry.pw_gecos = String::from("User\0Information");
    let mut buffer = vec![0xAAu8; 200];
    let mut result = empty_passwd();
    let mut errno = 0;
    let status = write_passwd(entry, &mut result, ADDRESS, &mut buffer, &mut errno);
    assert_eq!(status, nss_status::NSS_STATUS_TRYAGAIN);
    assert_eq!(errno, libc::ENOMEM);
    assert_eq!(result, empty_passwd());
    assert_eq!(buffer, vec![0xAAu8; 200]);
}

#[test]
fn write_passwd_counts_bytes_not_characters() {
    let mut entry = gary();
    entry.pw_name = String::from("g\u{e4}ry");
    let mut buffer = vec![0u8; 200];
    let mut result = empty_passwd();
    let mut errno = 0;
    let status = write_passwd(entry, &mut result, ADDRESS, &mut buffer, &mut errno);
    assert_eq!(status, nss_status::NSS_STATUS_SUCCESS);
    assert_eq!(result.pw_passwd, ADDRESS + 6);
    assert_eq!(c_string(&buffer, ADDRESS, result.pw_name), "g\u{e4}ry".as_bytes().to_vec());
}

#[test]
fn write_passwd_with_empty_strings_needs_the_terminators() {
    let entry = AlexandriaPassword {
        pw_name: String::new(),
        pw_passwd: String::new(),
        pw_uid: 1,
        pw_gid: 2,
        pw_gecos: String::new(),
        pw_dir: String::new(),
        pw_shell: String::new(),
    };
    let mut result = empty_passwd();
    let mut errno = 0;
    let mut small = vec![1u8; 4];
    assert_eq!(
        write_passwd(entry.clone(), &mut result, ADDRESS, &mut small, &mut errno),
        nss_status::NSS_STATUS_TRYAGAIN
    );
    assert_eq!(errno, libc::ERANGE);
    let mut exact = vec![1u8; 5];
    let mut errno = 0;
    assert_eq!(
        write_passwd(entry, &mut result, ADDRESS, &mut exact, &mut errno),
        nss_status::NSS_STATUS_SUCCESS
    );
    assert_eq!(exact, vec![0u8; 5]);
    assert_eq!(result.pw_shell, ADDRESS + 4);
    assert_eq!((result.pw_uid, result.pw_gid), (1, 2));
}

#[test]
fn write_shadow_fills_the_record() {
    let mut buffer = vec![0xAAu8; 64];
    let mut result = empty_spwd();
    let mut errno = 5;
    let status = write_shadow(testshadow(), &mut result, ADDRESS, &mut buffer, &mut errno);
    assert_eq!(status, nss_status::NSS_STATUS_SUCCESS);
    assert_eq!(errno, 5);
    assert_eq!(
        result,
        spwd {
            sp_namp: ADDRESS,
            sp_pwdp: ADDRESS + 10,
            sp_lstchg: 16034,
            sp_min: 0,
            sp_max: 99999,
            sp_warn: 7,
            sp_inact: -1,
            sp_expire: -1,
            sp_flag: 0,
        }
    );
    let mut expected = b"testuser1\0$1$BXZIu72k$S7oxt9hBiBl/O3Rm3H4Q30\0".to_vec();
    assert_eq!(expected.len(), 45);
    expected.resize(64, 0);
    assert_eq!(buffer, expected);
}

#[test]
fn write_shadow_widens_the_largest_flag() {
    let mut entry = testshadow();
    entry.sp_flag = u32::MAX;
    entry.sp_min = i32::MIN;
    entry.sp_max = i32::MAX;
    let mut buffer = vec![0u8; 64];
    let mut result = empty_spwd();
    let mut errno = 0;
    write_shadow(entry, &mut result, ADDRESS, &mut buffer, &mut errno);
    assert_eq!(result.sp_flag, 4294967295u64);
    assert_eq!(result.sp_min, -2147483648i64);
    assert_eq!(result.sp_max, 2147483647i64);
}

#[test]
fn write_shadow_one_byte_short_is_out_of_range() {
    let mut buffer = vec![0xAAu8; 44];
    let mut result = empty_spwd();
    let mut errno = 0;
    let status = write_shadow(testshadow(), &mut result, ADDRESS, &mut buffer, &mut errno);
    assert_eq!(status, nss_status::NSS_STATUS_TRYAGAIN);
    assert_eq!(errno, libc::ERANGE);
    assert_eq!(result, empty_spwd());
    let mut expected = b"testuser1\0".to_vec();
    expected.resize(44, 0);
    assert_eq!(buffer, expected);
}

#[test]
fn write_shadow_refuses_a_nul_byte_untouched() {
    let mut entry = testshadow();
    entry.sp_pwdp = String::from("\0");
    let mut buffer = vec![3u8; 64];
    let mut result = empty_spwd();
    let mut errno = 0;
    let status = write_shadow(entry, &mut result, ADDRESS, &mut buffer, &mut errno);
    assert_eq!(status, nss_status::NSS_STATUS_TRYAGAIN);
    assert_eq!(errno, libc::ENOMEM);
    assert_eq!(buffer, vec![3u8; 64]);
}

// "testgroup1\0x\0alice\0bob\0carol\0" takes 29 bytes; at an address that is
// a multiple of eight the table starts 3 bytes later, at offset 32, and takes
// four entries of eight bytes: 64 bytes in all.
const GROUP_STRINGS: &[u8] = b"testgroup1\0x\0alice\0bob\0carol\0";

#[test]
fn write_group_three_members_one_byte_short() {
    assert_eq!(GROUP_STRINGS.len(), 29);
    let mut buffer = vec![0xAAu8; 63];
    let mut result = empty_group();
    let mut errno = 0;
    let status = write_group(testgroup(), &mut result, ADDRESS, &mut buffer, &mut errno);
    assert_eq!(status, nss_status::NSS_STATUS_TRYAGAIN);
    assert_eq!(errno, libc::ERANGE);
    assert_eq!(result, empty_group());
    let mut expected = GROUP_STRINGS.to_vec();
    expected.resize(63, 0);
    assert_eq!(buffer, expected);
}

#[test]
fn write_group_three_members_points_at_each_name() {
    let mut buffer = vec![0xAAu8; 64];
    let mut result = empty_group();
    let mut errno = 9;
    let status = write_group(testgroup(), &mut result, ADDRESS, &mut buffer, &mut errno);
    assert_eq!(status, nss_status::NSS_STATUS_SUCCESS);
    assert_eq!(errno, 9);
    assert_eq!(
        result,
        group { gr_name: ADDRESS, gr_passwd: ADDRESS + 11, gr_gid: 6000, gr_mem: ADDRESS + 32 }
    );
    assert_eq!(c_string(&buffer, ADDRESS, result.gr_name), b"testgroup1".to_vec());
    assert_eq!(c_string(&buffer, ADDRESS, result.gr_passwd), b"x".to_vec());
    let names: [&[u8]; 3] = [b"alice", b"bob", b"carol"];
    let at = [ADDRESS + 13, ADDRESS + 19, ADDRESS + 23];
    for i in 0..3 {
        let member = table_entry(&buffer, ADDRESS, result.gr_mem + SLOT_BYTES * i);
        assert_eq!(member, at[i]);
        assert_eq!(c_string(&buffer, ADDRESS, member), names[i].to_vec());
    }
    assert_eq!(table_entry(&buffer, ADDRESS, result.gr_mem + SLOT_BYTES * 3), 0);
    let mut expected = GROUP_STRINGS.to_vec();
    expected.extend_from_slice(&[0, 0, 0]);
    for a in at {
        expected.extend_from_slice(&(a as u64).to_le_bytes());
    }
    expected.extend_from_slice(&[0u8; 8]);
    assert_eq!(buffer, expected);
}

#[test]
fn write_group_aligns_the_table_by_the_address() {
    // At 0x7003 the strings end at 0x7020, which is a multiple of eight.
    let base = 0x7003;
    let mut buffer = vec![0xAAu8; 61];
    let mut result = empty_group();
    let mut errno = 0;
    let status = write_group(testgroup(), &mut result, base, &mut buffer, &mut errno);
    assert_eq!(status, nss_status::NSS_STATUS_SUCCESS);
    assert_eq!(result.gr_mem, base + 29);
    assert_eq!(result.gr_mem % SLOT_BYTES, 0);
    assert_eq!(table_entry(&buffer, base, result.gr_mem + 16), base + 23);
    let mut short = vec![0xAAu8; 60];
    let status = write_group(testgroup(), &mut result, base, &mut short, &mut errno);
    assert_eq!(status, nss_status::NSS_STATUS_TRYAGAIN);
    assert_eq!(errno, libc::ERANGE);
}

#[test]
fn write_group_without_members_keeps_the_closing_entry() {
    let mut entry = testgroup();
    entry.gr_mem = Vec::new();
    // 13 bytes of strings, 3 bytes to the next multiple of eight, one entry.
    let mut buffer = vec![0xAAu8; 24];
    let mut result = empty_group();
    let mut errno = 0;
    let status = write_group(entry.clone(), &mut result, ADDRESS, &mut buffer, &mut errno);
    assert_eq!(status, nss_status::NSS_STATUS_SUCCESS);
    assert_eq!(result.gr_mem, ADDRESS + 16);
    assert_eq!(table_entry(&buffer, ADDRESS, result.gr_mem), 0);
    let mut short = vec![0xAAu8; 23];
    let status = write_group(entry, &mut result, ADDRESS, &mut short, &mut errno);
    assert_eq!(status, nss_status::NSS_STATUS_TRYAGAIN);
    assert_eq!(errno, libc::ERANGE);
}

#[test]
fn write_group_stops_at_the_member_that_does_not_fit() {
    let mut buffer = vec![0xAAu8; 20];
    let mut result = empty_group();
    let mut errno = 0;
    let status = write_group(testgroup(), &mut result, ADDRESS, &mut buffer, &mut errno);
    assert_eq!(status, nss_status::NSS_STATUS_TRYAGAIN);
    assert_eq!(errno, libc::ERANGE);
    let mut expected = b"testgroup1\0x\0alice\0".to_vec();
    expected.resize(20, 0);
    assert_eq!(buffer, expected);
}

#[test]
fn write_group_refuses_a_nul_byte_in_a_member() {
    let mut entry = testgroup();
    entry.gr_mem[2] = String::from("ca\0rol");
    let mut buffer = vec![0xAAu8; 128];
    let mut result = empty_group();
    let mut errno = 0;
    let status = write_group(entry, &mut result, ADDRESS, &mut buffer, &mut errno);
    assert_eq!(status, nss_status::NSS_STATUS_TRYAGAIN);
    assert_eq!(errno, libc::ENOMEM);
    assert_eq!(buffer, vec![0xAAu8; 128]);
    assert_eq!(result, empty_group());
}

#[test]
fn write_group_writes_every_byte_of_an_address() {
    let base: usize = 0x0123_4567_89ab_cd00;
    let mut buffer = vec![0u8; 64];
    let mut result = empty_group();
    let mut errno = 0;
    let status = write_group(testgroup(), &mut result, base, &mut buffer, &mut errno);
    assert_eq!(status, nss_status::NSS_STATUS_SUCCESS);
    assert_eq!(&buffer[32..40], &[0x0d, 0xcd, 0xab, 0x89, 0x67, 0x45, 0x23, 0x01]);
}
