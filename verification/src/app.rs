//! Names, paths and build identity of the application.

use vstd::prelude::*;
use vstd::string::*;

use crate::path::parent;
use crate::text::{chars_of, push_hex, text_of};

verus! {

/// Display name, in dialogs, tooltips and the service list.
pub const NAME: &'static str = "HP Thermal Control";
/// Name of the program on the command line.
pub const BIN_NAME: &'static str = "hp-thermal";
pub const EXE_NAME: &'static str = "hp-thermal.exe";
pub const AUTHOR: &'static str = "bgonz808";
pub const COPYRIGHT: &'static str = "MIT License";
pub const REPO_URL: &'static str = "https://github.com/bgonz808/hp-thermal";

pub const SERVICE_NAME: &'static str = "HpThermalService";
pub const SERVICE_DESC: &'static str = "Lightweight thermal mode control for HP laptops.\nProvides WMI access for the hp-thermal tray app.\nhttps://github.com/bgonz808/hp-thermal";

/// What SYSTEM may do with the service.
pub const ACE_SYSTEM: &'static str = "(A;;CCLCSWRPWPDTLOCRRC;;;SY)";
/// What the administrators may do with the service.
pub const ACE_ADMINS: &'static str = "(A;;CCDCLCSWRPWPDTLOCRSDRCWDWO;;;BA)";
/// What the interactive user may do with the service: the default rights, and
/// start (RP) and stop (WP), so that the tray can control it without elevation.
pub const ACE_USER: &'static str = "(A;;CCLCSWRPWPLOCRRC;;;IU)";

pub const PIPE_NAME: &'static str = "\\\\.\\pipe\\HpThermalCtl";
pub const MUTEX_NAME: &'static str = "HpThermalTrayMutex";
pub const SETUP_MUTEX_NAME: &'static str = "HpThermalSetupMutex";
pub const WINDOW_CLASS: &'static str = "HpThermalTray";
pub const LOG_FILE: &'static str = "hp-thermal.log";
/// Event that the service signals when Fn+F12 is pressed.
pub const FNKEY_EVENT: &'static str = "Global\\HpThermalFnKey";
/// File that holds what Fn+F12 does.
pub const FNKEY_CONFIG: &'static str = "fnkey";
/// Event that the service signals when it starts.
pub const SVC_START_EVENT: &'static str = "Global\\HpThermalSvcStart";
/// Name of the directory under Program Files and under ProgramData.
pub const INSTALL_DIR_NAME: &'static str = "HpThermal";
/// Library that holds the icons of the tray, and the icon in it.
pub const ICON_DLL: &'static str = "imageres.dll";
pub const ICON_INDEX: i32 = 144;

/// FNV-1a, 64 bits wide.
pub open spec fn fnv1a_64_of(bytes: Seq<u8>) -> u64
    decreases bytes.len(),
{
    if bytes.len() == 0 {
        0xcbf2_9ce4_8422_2325
    } else {
        (((fnv1a_64_of(bytes.drop_last()) ^ (bytes.last() as u64)) * 0x0100_0000_01b3)
            % 0x1_0000_0000_0000_0000) as u64
    }
}

/// FNV-1a hash of a sequence of bytes.
pub fn fnv1a_64(bytes: &[u8]) -> (h: u64)
    ensures
        h == fnv1a_64_of(bytes@),
{
    let mut h: u64 = 0xcbf2_9ce4_8422_2325;
    let mut i: usize = 0;
    while i < bytes.len()
        invariant
            i <= bytes@.len(),
            h == fnv1a_64_of(bytes@.take(i as int)),
        decreases bytes@.len() - i,
    {
        proof {
            assert(bytes@.take(i + 1).drop_last() =~= bytes@.take(i as int));
        }
        h = (h ^ bytes[i] as u64).wrapping_mul(0x0100_0000_01b3);
        i = i + 1;
    }
    assert(bytes@.take(i as int) =~= bytes@);
    h
}

/// Multiplying by the prime of the hash loses nothing: it is odd, so it has an inverse
/// modulo the width.
proof fn products_tell_apart(x: u64, y: u64)
    requires
        (x * 0x0100_0000_01b3) % 0x1_0000_0000_0000_0000 == (y * 0x0100_0000_01b3)
            % 0x1_0000_0000_0000_0000,
    ensures
        x == y,
{
    let width: int = 0x1_0000_0000_0000_0000;
    let prime: int = 0x0100_0000_01b3;
    let inverse: int = 0xce965057aff6957b;
    let wraps: int = 0xce9650590f;
    assert(prime * inverse == wraps * width + 1);
    let d: int = x - y;
    let q: int = (x * prime) / width - (y * prime) / width;
    assert(d * prime == q * width) by {
        vstd::arithmetic::div_mod::lemma_fundamental_div_mod(x * prime, width);
        vstd::arithmetic::div_mod::lemma_fundamental_div_mod(y * prime, width);
        assert((x - y) * prime == x * prime - y * prime) by (nonlinear_arith);
        assert(((x * prime) / width - (y * prime) / width) * width == width * ((x * prime) / width)
            - width * ((y * prime) / width)) by (nonlinear_arith);
    }
    let m: int = q * inverse - d * wraps;
    assert(d == m * width) by (nonlinear_arith)
        requires
            d * prime == q * width,
            prime * inverse == wraps * width + 1,
            m == q * inverse - d * wraps,
    {
        assert((d * prime) * inverse == (q * width) * inverse);
        assert((d * prime) * inverse == d * (prime * inverse));
        assert(d * (wraps * width + 1) == (d * wraps) * width + d);
        assert((q * width) * inverse == (q * inverse) * width);
        assert((q * inverse - d * wraps) * width == (q * inverse) * width - (d * wraps) * width);
    }
    assert(m == 0) by (nonlinear_arith)
        requires
            d == m * width,
            -width < d < width,
            width > 0,
    ;
}

proof fn bytes_tell_apart(g: u64, h: u64, x: u8, y: u8)
    requires
        g == h && x != y || g != h && x == y,
    ensures
        g ^ (x as u64) != h ^ (y as u64),
{
    assert(g == h && x != y || g != h && x == y ==> g ^ (x as u64) != h ^ (y as u64))
        by (bit_vector);
}

/// Files of the same length that differ in one byte have different digests.
pub proof fn one_byte_changes_the_digest(a: Seq<u8>, b: Seq<u8>, i: int)
    requires
        a.len() == b.len(),
        0 <= i < a.len(),
        a[i] != b[i],
        forall|j: int| 0 <= j < a.len() && j != i ==> a[j] == b[j],
    ensures
        fnv1a_64_of(a) != fnv1a_64_of(b),
    decreases a.len(),
{
    let g = fnv1a_64_of(a.drop_last());
    let h = fnv1a_64_of(b.drop_last());
    if i == a.len() - 1 {
        assert(a.drop_last() =~= b.drop_last());
    } else {
        one_byte_changes_the_digest(a.drop_last(), b.drop_last(), i);
    }
    bytes_tell_apart(g, h, a.last(), b.last());
    if fnv1a_64_of(a) == fnv1a_64_of(b) {
        products_tell_apart(g ^ (a.last() as u64), h ^ (b.last() as u64));
    }
}

/// The digest of a file as sixteen hexadecimal digits; empty for a file that could
/// not be read.
pub open spec fn digest_text(contents: Option<Seq<u8>>) -> Seq<char> {
    match contents {
        Some(bytes) => crate::text::hex(fnv1a_64_of(bytes) as int, 16),
        None => Seq::empty(),
    }
}

/// The digest of a file, given what reading it brought.
pub fn file_digest(contents: Option<&[u8]>) -> (out: String)
    ensures
        out@ == digest_text(
            match contents {
                Some(bytes) => Some(bytes@),
                None => None,
            },
        ),
{
    let mut out: String = String::new();
    if let Some(bytes) = contents {
        push_hex(&mut out, fnv1a_64(bytes), 16);
    }
    out
}

/// What tells one build from another.
pub struct Build {
    pub version: String,
    pub id: String,
    pub date: String,
}

/// Version, build id and date, digest and path of the running program, on one line.
pub open spec fn identity_text(
    version: Seq<char>,
    id: Seq<char>,
    date: Seq<char>,
    digest: Seq<char>,
    exe: Seq<char>,
) -> Seq<char> {
    BIN_NAME@ + " "@ + version + "+"@ + id + " ("@ + date + ") fnv="@ + digest + " path="@ + exe
}

/// One line for the log that says which build runs and from where. The digest
/// tells apart two files of the same version.
pub fn build_identity(build: &Build, exe: &str, contents: Option<&[u8]>) -> (out: String)
    ensures
        out@ == identity_text(
            build.version@,
            build.id@,
            build.date@,
            digest_text(
                match contents {
                    Some(bytes) => Some(bytes@),
                    None => None,
                },
            ),
            exe@,
        ),
{
    let digest = file_digest(contents);
    let mut out: String = BIN_NAME.to_owned();
    out.append(" ");
    out.append(build.version.as_str());
    out.append("+");
    out.append(build.id.as_str());
    out.append(" (");
    out.append(build.date.as_str());
    out.append(") fnv=");
    out.append(digest.as_str());
    out.append(" path=");
    out.append(exe);
    out
}

/// The security descriptor of the service: one entry for SYSTEM, one for the
/// administrators, one for the interactive user.
pub fn service_sddl() -> (out: String)
    ensures
        out@ == "D:"@ + ACE_SYSTEM@ + ACE_ADMINS@ + ACE_USER@,
{
    let mut out: String = "D:".to_owned();
    out.append(ACE_SYSTEM);
    out.append(ACE_ADMINS);
    out.append(ACE_USER);
    out
}

/// The directory that holds the running program.
pub fn exe_dir(exe_path: &str) -> (out: String)
    ensures
        out@ == crate::path::dir_of(exe_path@),
{
    let chars = chars_of(exe_path);
    let dir = parent(chars.as_slice());
    text_of(dir.as_slice())
}

/// The directory of the application below `folder`.
pub open spec fn app_dir(folder: Seq<char>) -> Seq<char> {
    folder + "\\"@ + INSTALL_DIR_NAME@
}

fn below(folder: &str) -> (out: String)
    ensures
        out@ == app_dir(folder@),
{
    let mut out: String = folder.to_owned();
    out.append("\\");
    out.append(INSTALL_DIR_NAME);
    out
}

/// Where the program is installed, below the Program Files folder.
pub fn install_dir(program_files: &str) -> (out: String)
    ensures
        out@ == app_dir(program_files@),
{
    below(program_files)
}

/// Where the shared data lies, below the ProgramData folder.
pub fn data_dir(program_data: &str) -> (out: String)
    ensures
        out@ == app_dir(program_data@),
{
    below(program_data)
}

/// Path of the installed program below the Program Files folder.
pub open spec fn installed_exe_path(program_files: Seq<char>) -> Seq<char> {
    app_dir(program_files) + "\\"@ + EXE_NAME@
}

/// Path of the installed program.
pub fn installed_exe(program_files: &str) -> (out: String)
    ensures
        out@ == installed_exe_path(program_files@),
{
    let mut out = install_dir(program_files);
    out.append("\\");
    out.append(EXE_NAME);
    out
}

/// The program is installed in the directory of the application below Program Files, and
/// nothing else stands between them. Folders that are no directory on a drive, or end in
/// a separator or a dot of their own, are left out.
pub proof fn the_program_lies_below_program_files(program_files: Seq<char>)
    requires
        crate::path::is_on_drive(program_files),
        program_files.len() > 3,
        !crate::path::is_separator(program_files.last(), false),
        program_files.last() != '.',
    ensures
        crate::path::dir_of(installed_exe_path(program_files)) == app_dir(program_files),
        crate::path::dir_of(app_dir(program_files)) == program_files,
        crate::path::components(installed_exe_path(program_files)) == crate::path::components(
            program_files,
        ) + seq![
            crate::path::Component::Name("HpThermal"@),
            crate::path::Component::Name("hp-thermal.exe"@),
        ],
{
    reveal_strlit("\\");
    reveal_strlit("HpThermal");
    reveal_strlit("hp-thermal.exe");
    let dir = app_dir(program_files);
    let exe = installed_exe_path(program_files);
    assert("\\"@ =~= seq!['\\']);
    assert(dir =~= program_files + seq!['\\'] + "HpThermal"@);
    assert(exe =~= dir + seq!['\\'] + "hp-thermal.exe"@);
    assert("HpThermal"@.len() == 9);
    assert("hp-thermal.exe"@.len() == 14);
    assert(seq!['.'].len() == 1);
    assert(dir.last() == 'l');
    assert(crate::path::is_on_drive(dir)) by {
        assert(dir[0] == program_files[0]);
        assert(dir[1] == program_files[1]);
        assert(dir[2] == program_files[2]);
    }
    crate::path::directories_stand_before_their_names(program_files, "HpThermal"@);
    crate::path::directories_stand_before_their_names(dir, "hp-thermal.exe"@);
    crate::path::names_stand_below_their_directory(program_files, "HpThermal"@);
    crate::path::names_stand_below_their_directory(dir, "hp-thermal.exe"@);
    assert(crate::path::components(exe) =~= crate::path::components(program_files) + seq![
        crate::path::Component::Name("HpThermal"@),
        crate::path::Component::Name("hp-thermal.exe"@),
    ]);
}

/// A file that was read is told by sixteen hexadecimal digits, which stand for its
/// digest; one that was not, by none.
pub proof fn digests_have_sixteen_digits(contents: Option<Seq<u8>>)
    ensures
        contents is None <==> digest_text(contents).len() == 0,
        contents matches Some(bytes) ==> {
            &&& digest_text(contents).len() == 16
            &&& crate::text::number_in(digest_text(contents), 16) == fnv1a_64_of(bytes)
        },
{
    if contents is Some {
        vstd::arithmetic::power::lemma_pow_adds(16, 8, 8);
        reveal(vstd::arithmetic::power::pow);
        reveal_with_fuel(vstd::arithmetic::power::pow, 9);
        assert(vstd::arithmetic::power::pow(16, 8) == 0x1_0000_0000);
        assert(vstd::arithmetic::power::pow(16, 16) == 0x1_0000_0000_0000_0000);
        crate::text::hexadecimals_are_read_back(fnv1a_64_of(contents->0) as int, 16);
    }
}

/// The digest of a file goes on byte by byte, by the constants of FNV-1a for 64 bits.
pub proof fn digests_go_on(bytes: Seq<u8>, next: u8)
    ensures
        fnv1a_64_of(Seq::empty()) == 14695981039346656037,
        fnv1a_64_of(bytes.push(next)) == ((fnv1a_64_of(bytes) ^ (next as u64)) * 1099511628211)
            % 18446744073709551616,
{
    assert(bytes.push(next).drop_last() =~= bytes);
}

/// The line that says which build runs names its version, its build, its date, its digest
/// and its path, in this order.
pub proof fn builds_are_named_in_full(
    version: Seq<char>,
    id: Seq<char>,
    date: Seq<char>,
    digest: Seq<char>,
    exe: Seq<char>,
)
    ensures
        identity_text(version, id, date, digest, exe) == "hp-thermal"@ + (" "@ + version) + ("+"@
            + id) + (" ("@ + date + ")"@) + (" fnv="@ + digest) + (" path="@ + exe),
{
    reveal_strlit(") fnv=");
    reveal_strlit(")");
    reveal_strlit(" fnv=");
    assert(identity_text(version, id, date, digest, exe) =~= "hp-thermal"@ + (" "@ + version) + (
    "+"@ + id) + (" ("@ + date + ")"@) + (" fnv="@ + digest) + (" path="@ + exe));
}

} // verus!
