//! Installing a downloaded release.
//!
//! What is run, with which arguments, and where the new program then lies, for each
//! system; and what has to be there before.

use vstd::prelude::*;
use vstd::string::*;

use crate::auto_update::ErrorModel;
use crate::auto_update::UpdateError;
use crate::lists;
use crate::text;

verus! {

// ---------------------------------------------------------------------------
// Which system
// ---------------------------------------------------------------------------

/// How a release is installed.
#[derive(Clone, Copy, Debug, PartialEq, Eq, Structural)]
pub enum Installer {
    MacOs,
    Linux,
    Windows,
}

/// The installer of a system, by the system's name.
pub open spec fn installer_of(os: Seq<char>) -> Option<Installer> {
    if os == "macos"@ {
        Some(Installer::MacOs)
    } else if os == "linux"@ {
        Some(Installer::Linux)
    } else if os == "windows"@ {
        Some(Installer::Windows)
    } else {
        None
    }
}

/// The installer of a system; the error says that there is none.
pub fn install_release(os: &str) -> (r: Result<Installer, String>)
    ensures
        match r {
            Ok(i) => installer_of(os@) == Some(i),
            Err(message) => installer_of(os@) is None && message@ == "not supported: "@ + os@,
        },
{
    if text::same(os, "macos") {
        Ok(Installer::MacOs)
    } else if text::same(os, "linux") {
        Ok(Installer::Linux)
    } else if text::same(os, "windows") {
        Ok(Installer::Windows)
    } else {
        Err(text::join("not supported: ", os))
    }
}

/// The name of the download of a system.
pub open spec fn download_name(i: Installer) -> Seq<char> {
    match i {
        Installer::MacOs => "Zed.dmg"@,
        Installer::Linux => "zed.tar.gz"@,
        Installer::Windows => "Zed.exe"@,
    }
}

/// The name under which a release is downloaded; the error says that the system is
/// not supported.
pub fn target_path(os: &str) -> (r: Result<String, String>)
    ensures
        match r {
            Ok(name) => installer_of(os@) is Some && name@ == download_name(installer_of(os@)->0),
            Err(message) => installer_of(os@) is None && message@ == "not supported: "@ + os@,
        },
{
    match install_release(os) {
        Ok(Installer::MacOs) => Ok("Zed.dmg".to_owned()),
        Ok(Installer::Linux) => Ok("zed.tar.gz".to_owned()),
        Ok(Installer::Windows) => Ok("Zed.exe".to_owned()),
        Err(message) => Err(message),
    }
}

// ---------------------------------------------------------------------------
// What has to be installed
// ---------------------------------------------------------------------------

/// The words of a text, between blanks.
pub open spec fn words(s: Seq<char>) -> Seq<Seq<char>>
    decreases s.len(),
{
    if s.len() == 0 {
        Seq::empty()
    } else {
        let before = words(s.drop_last());
        let c = s.last();
        if text::is_blank(c) {
            before
        } else if s.len() >= 2 && !text::is_blank(s[s.len() - 2]) {
            before.update(before.len() - 1, before.last().push(c))
        } else {
            before.push(seq![c])
        }
    }
}

/// A text without this character at its front.
pub open spec fn without_leading(s: Seq<char>, c: char) -> Seq<char>
    decreases s.len(),
{
    if s.len() > 0 && s[0] == c {
        without_leading(s.skip(1), c)
    } else {
        s
    }
}

/// A value without the quotation marks round it.
pub open spec fn unquoted(s: Seq<char>) -> Seq<char> {
    text::without_trailing(without_leading(s, '"'), '"')
}

/// A text in small letters.
pub open spec fn lowered_text(s: Seq<char>) -> Seq<char> {
    Seq::new(s.len(), |i: int| text::lowered(s[i]))
}

/// Texts in small letters.
pub open spec fn lowered_texts(v: Seq<Seq<char>>) -> Seq<Seq<char>> {
    Seq::new(v.len(), |i: int| lowered_text(v[i]))
}

/// The distributions that a line of the release file names: the one of `ID`, or
/// those of `ID_LIKE`.
pub open spec fn line_ids(line: Seq<char>) -> Seq<Seq<char>> {
    let t = text::trimmed(line);
    if text::begins_with(t, "ID="@) {
        seq![lowered_text(unquoted(t.skip("ID="@.len() as int)))]
    } else if text::begins_with(t, "ID_LIKE="@) {
        lowered_texts(words(unquoted(t.skip("ID_LIKE="@.len() as int))))
    } else {
        Seq::empty()
    }
}

/// The distributions that the lines from a position on name.
pub open spec fn ids_from(s: Seq<char>, from: int) -> Seq<Seq<char>>
    decreases s.len() - from,
{
    if from >= s.len() {
        Seq::empty()
    } else {
        let end = text::index_from(s, '\n', from);
        if from <= end < s.len() {
            line_ids(s.subrange(from, end)) + ids_from(s, end + 1)
        } else {
            line_ids(s.skip(from))
        }
    }
}

/// The distributions that a release file names.
pub open spec fn distribution_ids(release: Seq<char>) -> Seq<Seq<char>> {
    ids_from(release, 0)
}

/// What to do on a distribution of these names; the first rule that fits counts.
pub open spec fn rsync_hint(ids: Seq<Seq<char>>) -> Seq<char> {
    if ids.contains("arch"@) {
        "Install it with: sudo pacman -S rsync"@
    } else if ids.contains("debian"@) || ids.contains("ubuntu"@) {
        "Install it with: sudo apt install rsync"@
    } else if ids.contains("fedora"@) || ids.contains("rhel"@) || ids.contains("centos"@)
        || ids.contains("rocky"@) || ids.contains("almalinux"@) {
        "Install it with: sudo dnf install rsync"@
    } else if ids.contains("nixos"@) {
        "Install pkgs.rsync from nixpkgs"@
    } else {
        "Please install rsync using your package manager"@
    }
}

fn lower_range(v: &Vec<char>, from: usize, to: usize) -> (r: String)
    requires
        from <= to <= v.len(),
    ensures
        r@ == lowered_text(v@.subrange(from as int, to as int)),
{
    let mut r = String::new();
    let mut i: usize = from;
    assert(r@ =~= lowered_text(v@.subrange(from as int, from as int)));
    while i < to
        invariant
            from <= i <= to <= v.len(),
            r@ == lowered_text(v@.subrange(from as int, i as int)),
        decreases to - i,
    {
        text::push_char(&mut r, text::lower(v[i]));
        i += 1;
        assert(r@ =~= lowered_text(v@.subrange(from as int, i as int)));
    }
    r
}

fn skip_quotes(v: &Vec<char>) -> (r: usize)
    ensures
        r <= v.len(),
        without_leading(v@, '"') == v@.skip(r as int),
{
    let mut i: usize = 0;
    assert(v@.skip(0) =~= v@);
    while i < v.len() && v[i] == '"'
        invariant
            i <= v.len(),
            without_leading(v@, '"') == without_leading(v@.skip(i as int), '"'),
        decreases v.len() - i,
    {
        assert(v@.skip(i as int).skip(1) =~= v@.skip(i + 1));
        i += 1;
    }
    i
}

pub(crate) fn unquote(s: &str) -> (r: String)
    ensures
        r@ == unquoted(s@),
{
    let v = text::chars_of(s);
    let from = skip_quotes(&v);
    let rest = text::string_of(&v, from, v.len());
    assert(v@.subrange(from as int, v.len() as int) =~= v@.skip(from as int));
    text::trim_end_char(rest.as_str(), '"')
}

/// The words of a text, in small letters, appended to a list.
fn push_words(ids: &mut Vec<String>, s: &str)
    ensures
        lists::texts(final(ids)@) == lists::texts(old(ids)@) + lowered_texts(words(s@)),
{
    let v = text::chars_of(s);
    let ghost first = lists::texts(ids@);
    let mut word = String::new();
    let mut i: usize = 0;
    assert(lists::texts(ids@) =~= first + lowered_texts(words(v@.take(0))));
    while i < v.len()
        invariant
            i <= v.len(),
            v@ == s@,
            word@.len() > 0 <==> i > 0 && !text::is_blank(v[i - 1]),
            word@.len() == 0 ==> lists::texts(ids@) == first + lowered_texts(
                words(v@.take(i as int)),
            ),
            word@.len() > 0 ==> words(v@.take(i as int)).len() > 0 && lists::texts(ids@).push(
                word@,
            ) == first + lowered_texts(words(v@.take(i as int))),
        decreases v.len() - i,
    {
        let ghost taken = v@.take(i as int);
        let ghost longer = v@.take(i + 1);
        proof {
            assert(longer.drop_last() =~= taken);
            assert(longer.last() == v[i as int]);
        }
        if text::blank(v[i]) {
            if !word.as_str().is_empty() {
                let ghost before = ids@;
                ids.push(word);
                assert(lists::texts(ids@) =~= lists::texts(before).push(word@));
                word = String::new();
            }
        } else {
            let ghost old_word = word@;
            let c = text::lower(v[i]);
            text::push_char(&mut word, c);
            proof {
                let a = words(taken);
                let b = words(longer);
                let listed = lists::texts(ids@);
                if old_word.len() > 0 {
                    let n = a.len() - 1;
                    assert(longer[longer.len() - 2] == v[i - 1]);
                    assert(b == a.update(n, a.last().push(v[i as int])));
                    assert(listed.push(old_word).last() == (first + lowered_texts(a)).last());
                    assert(old_word == lowered_text(a.last()));
                    assert(lowered_text(a.last().push(v[i as int])) =~= old_word.push(c));
                    assert(listed =~= listed.push(old_word).drop_last());
                    assert(lowered_texts(b) =~= lowered_texts(a).drop_last().push(word@));
                    assert(listed.push(word@) =~= first + lowered_texts(b));
                } else {
                    assert(b == a.push(seq![v[i as int]]));
                    assert(lowered_text(seq![v[i as int]]) =~= seq![c]);
                    assert(word@ =~= seq![c]);
                    assert(lowered_texts(b) =~= lowered_texts(a).push(word@));
                    assert(listed.push(word@) =~= first + lowered_texts(b));
                }
            }
        }
        i += 1;
    }
    assert(v@.take(i as int) =~= v@);
    if !word.as_str().is_empty() {
        let ghost before = ids@;
        ids.push(word);
        assert(lists::texts(ids@) =~= lists::texts(before).push(word@));
    }
}

fn push_line_ids(ids: &mut Vec<String>, line: &str)
    ensures
        lists::texts(final(ids)@) == lists::texts(old(ids)@) + line_ids(line@),
{
    let t = text::trim(line);
    let ghost before = ids@;
    match text::after_prefix(t.as_str(), "ID=") {
        Some(value) => {
            let u = unquote(value.as_str());
            let v = text::chars_of(u.as_str());
            assert(v@.subrange(0, v.len() as int) =~= u@);
            ids.push(lower_range(&v, 0, v.len()));
            assert(lists::texts(ids@) =~= lists::texts(before) + line_ids(line@));
        },
        None => match text::after_prefix(t.as_str(), "ID_LIKE=") {
            Some(value) => {
                push_words(ids, unquote(value.as_str()).as_str());
            },
            None => {
                assert(lists::texts(ids@) =~= lists::texts(before) + line_ids(line@));
            },
        },
    }
}

/// The distributions that a release file names.
fn read_distribution_ids(release: &str) -> (r: Vec<String>)
    ensures
        lists::texts(r@) == distribution_ids(release@),
{
    let v = text::chars_of(release);
    let mut r: Vec<String> = Vec::new();
    let mut from: usize = 0;
    assert(lists::texts(r@) + ids_from(v@, 0) =~= ids_from(v@, 0));
    while from < v.len()
        invariant
            from <= v.len(),
            v@ == release@,
            lists::texts(r@) + ids_from(v@, from as int) == distribution_ids(release@),
        decreases v.len() - from,
    {
        let end = text::index_of(&v, '\n', from);
        let ghost before = lists::texts(r@);
        push_line_ids(&mut r, text::string_of(&v, from, end).as_str());
        if end == v.len() {
            assert(v@.subrange(from as int, end as int) =~= v@.skip(from as int));
            return r;
        }
        proof {
            assert(before + ids_from(v@, from as int) =~= lists::texts(r@) + ids_from(
                v@,
                end + 1,
            ));
        }
        from = end + 1;
    }
    assert(lists::texts(r@) + ids_from(v@, from as int) =~= lists::texts(r@));
    r
}

/// How to install rsync, from the text of the system's release file, where it could
/// be read.
pub fn linux_rsync_install_hint(os_release: Option<&str>) -> (r: &'static str)
    ensures
        r@ == match os_release {
            Some(release) => rsync_hint(distribution_ids(release@)),
            None => "Please install rsync using your package manager"@,
        },
{
    match os_release {
        None => "Please install rsync using your package manager",
        Some(release) => {
            let ids = read_distribution_ids(release);
            if lists::lists_text(&ids, "arch") {
                "Install it with: sudo pacman -S rsync"
            } else if lists::lists_text(&ids, "debian") || lists::lists_text(&ids, "ubuntu") {
                "Install it with: sudo apt install rsync"
            } else if lists::lists_text(&ids, "fedora") || lists::lists_text(&ids, "rhel")
                || lists::lists_text(&ids, "centos") || lists::lists_text(&ids, "rocky")
                || lists::lists_text(&ids, "almalinux") {
                "Install it with: sudo dnf install rsync"
            } else if lists::lists_text(&ids, "nixos") {
                "Install pkgs.rsync from nixpkgs"
            } else {
                "Please install rsync using your package manager"
            }
        },
    }
}

/// What is said where rsync is missing: with a hint on Linux, where it counts as a
/// missing dependency; plainly on macOS. No other system needs it.
pub open spec fn missing_dependency(
    os: Seq<char>,
    has_rsync: bool,
    hint: Seq<char>,
) -> Option<ErrorModel> {
    if has_rsync {
        None
    } else if os == "linux"@ {
        Some(
            ErrorModel {
                missing_dependency: true,
                message: "rsync is required for auto-updates but is not installed. "@ + hint,
            },
        )
    } else if os == "macos"@ {
        Some(
            ErrorModel {
                missing_dependency: false,
                message: "Could not auto-update because the required rsync utility was not found."@,
            },
        )
    } else {
        None
    }
}

/// Whether a release can be installed, or what is missing.
pub fn check_dependencies(os: &str, has_rsync: bool, os_release: Option<&str>) -> (r: Result<
    (),
    UpdateError,
>)
    ensures
        ({
            let hint = match os_release {
                Some(release) => rsync_hint(distribution_ids(release@)),
                None => "Please install rsync using your package manager"@,
            };
            match r {
                Ok(_) => missing_dependency(os@, has_rsync, hint) is None,
                Err(e) => missing_dependency(os@, has_rsync, hint) == Some(e@),
            }
        }),
{
    if has_rsync {
        Ok(())
    } else if text::same(os, "linux") {
        Err(
            UpdateError {
                missing_dependency: true,
                message: text::join(
                    "rsync is required for auto-updates but is not installed. ",
                    linux_rsync_install_hint(os_release),
                ),
            },
        )
    } else if text::same(os, "macos") {
        Err(
            UpdateError {
                missing_dependency: false,
                message:
                    "Could not auto-update because the required rsync utility was not found.".to_owned(),
            },
        )
    } else {
        Ok(())
    }
}

// ---------------------------------------------------------------------------
// Linux
// ---------------------------------------------------------------------------

/// A relative path below a directory.
pub open spec fn below(dir: Seq<char>, path: Seq<char>) -> Seq<char> {
    if dir.len() == 0 || dir.last() == '/' {
        dir + path
    } else {
        dir + seq!['/'] + path
    }
}

/// A relative path below a directory.
pub fn join_path(dir: &str, path: &str) -> (r: String)
    ensures
        r@ == below(dir@, path@),
{
    let v = text::chars_of(dir);
    if v.len() == 0 || v[v.len() - 1] == '/' {
        text::join(dir, path)
    } else {
        let mut r = dir.to_owned();
        text::push_char(&mut r, '/');
        text::join(r.as_str(), path)
    }
}

/// The directory of the program, in the archive and where it is installed.
pub open spec fn app_folder(channel: Seq<char>) -> Seq<char> {
    if channel == "stable"@ {
        "zed"@ + ".app"@
    } else {
        "zed"@ + (seq!['-'] + channel) + ".app"@
    }
}

/// The program below the directory that it is installed into.
pub open spec fn program_in(channel: Seq<char>) -> Seq<char> {
    app_folder(channel) + "/libexec/zed-editor"@
}

/// Where the release is installed: where the running program lies, as its path
/// tells, or below the home directory.
pub open spec fn linux_target(
    channel: Seq<char>,
    home: Seq<char>,
    running: Option<Seq<char>>,
) -> Seq<char> {
    match running {
        Some(path) if text::ends_with(path, program_in(channel)) => path.take(
            path.len() - program_in(channel).len(),
        ),
        _ => below(home, ".local"@),
    }
}

/// How a release is installed on Linux.
pub struct LinuxInstall {
    /// The directory to copy, below the one that the archive was unpacked into.
    pub from: String,
    /// The directory to copy to.
    pub to: String,
    /// The program to start then.
    pub program: String,
}

/// The directory that the archive is unpacked into, below the temporary one.
pub const LINUX_EXTRACTED: &'static str = "zed";

/// How a release is installed on Linux, for a channel, a home directory and the path
/// of the running program where that is text.
pub fn install_release_linux(channel: &str, home: &str, running: Option<&str>) -> (r:
    LinuxInstall)
    ensures
        r.from@ == app_folder(channel@),
        r.to@ == linux_target(
            channel@,
            home@,
            match running {
                Some(p) => Some(p@),
                None => None,
            },
        ),
        r.program@ == below(r.to@, program_in(channel@)),
{
    let folder = if text::same(channel, "stable") {
        text::join("zed", ".app")
    } else {
        let mut suffix = String::new();
        text::push_char(&mut suffix, '-');
        let suffix = text::join(suffix.as_str(), channel);
        assert(suffix@ =~= seq!['-'] + channel@);
        text::join(text::join("zed", suffix.as_str()).as_str(), ".app")
    };
    let expected = text::join(folder.as_str(), "/libexec/zed-editor");
    let to = match running {
        Some(path) => match text::before_suffix(path, expected.as_str()) {
            Some(prefix) => prefix,
            None => join_path(home, ".local"),
        },
        None => join_path(home, ".local"),
    };
    let program = join_path(to.as_str(), expected.as_str());
    LinuxInstall { from: folder, to, program }
}

/// Where the running program was installed in the usual place of a directory, the
/// update replaces it: the program to start is the running one.
pub proof fn law_update_replaces_running_program(
    channel: Seq<char>,
    home: Seq<char>,
    dir: Seq<char>,
)
    requires
        dir.len() == 0 || dir.last() == '/',
    ensures
        ({
            let running = dir + program_in(channel);
            &&& linux_target(channel, home, Some(running)) == dir
            &&& below(linux_target(channel, home, Some(running)), program_in(channel)) == running
        }),
{
    let running = dir + program_in(channel);
    assert(running.skip(running.len() - program_in(channel).len()) =~= program_in(channel));
    assert(running.take(running.len() - program_in(channel).len()) =~= dir);
}

/// The arguments of the `tar` that unpacks a release.
pub fn tar_args(archive: &str, dir: &str) -> (r: Vec<String>)
    ensures
        lists::texts(r@) == seq!["-xzf"@, archive@, "-C"@, dir@],
{
    let r = vec!["-xzf".to_owned(), archive.to_owned(), "-C".to_owned(), dir.to_owned()];
    assert(lists::texts(r@) =~= seq!["-xzf"@, archive@, "-C"@, dir@]);
    r
}

/// The arguments of the `rsync` that copies a release on Linux.
pub fn linux_rsync_args(from: &str, to: &str) -> (r: Vec<String>)
    ensures
        lists::texts(r@) == seq!["-av"@, "--delete"@, from@, to@],
{
    let r = vec!["-av".to_owned(), "--delete".to_owned(), from.to_owned(), to.to_owned()];
    assert(lists::texts(r@) =~= seq!["-av"@, "--delete"@, from@, to@]);
    r
}

// ---------------------------------------------------------------------------
// macOS
// ---------------------------------------------------------------------------

/// The volume of the disk image.
pub const VOLUME_NAME: &'static str = "VibeDev";

/// How a release is installed on macOS.
pub struct MacInstall {
    /// Where the disk image is mounted.
    pub mount: String,
    /// The arguments of the `hdiutil` that mounts it.
    pub attach: Vec<String>,
    /// The arguments of the `rsync` that copies the program.
    pub rsync: Vec<String>,
    /// The arguments of the `hdiutil` that unmounts it.
    pub detach: Vec<String>,
}

/// How a release is installed on macOS: the image is mounted below the temporary
/// directory, and its program, which has the name of the running one, is copied over
/// that.
pub fn install_release_macos(temp: &str, image: &str, running: &str, file_name: &str) -> (r:
    MacInstall)
    ensures
        r.mount@ == below(temp@, VOLUME_NAME@),
        lists::texts(r.attach@) == seq![
            "attach"@,
            "-nobrowse"@,
            image@,
            "-mountroot"@,
            temp@,
        ],
        lists::texts(r.rsync@) == seq![
            "-av"@,
            "--delete"@,
            "--exclude"@,
            "Icon?"@,
            below(below(temp@, VOLUME_NAME@), file_name@) + "/"@,
            running@,
        ],
        lists::texts(r.detach@) == seq!["detach"@, "-force"@, below(temp@, VOLUME_NAME@)],
{
    let mount = join_path(temp, VOLUME_NAME);
    let app = text::join(join_path(mount.as_str(), file_name).as_str(), "/");
    let attach = vec![
        "attach".to_owned(),
        "-nobrowse".to_owned(),
        image.to_owned(),
        "-mountroot".to_owned(),
        temp.to_owned(),
    ];
    let rsync = vec![
        "-av".to_owned(),
        "--delete".to_owned(),
        "--exclude".to_owned(),
        "Icon?".to_owned(),
        app,
        running.to_owned(),
    ];
    let detach = vec!["detach".to_owned(), "-force".to_owned(), mount.clone()];
    assert(lists::texts(attach@) =~= seq![
        "attach"@,
        "-nobrowse"@,
        image@,
        "-mountroot"@,
        temp@,
    ]);
    assert(lists::texts(rsync@) =~= seq![
        "-av"@,
        "--delete"@,
        "--exclude"@,
        "Icon?"@,
        below(below(temp@, VOLUME_NAME@), file_name@) + "/"@,
        running@,
    ]);
    assert(lists::texts(detach@) =~= seq!["detach"@, "-force"@, below(temp@, VOLUME_NAME@)]);
    MacInstall { mount, attach, rsync, detach }
}

// ---------------------------------------------------------------------------
// Windows
// ---------------------------------------------------------------------------

/// The directory that downloads lie in, next to the program.
pub const WINDOWS_UPDATES: &'static str = "updates";

/// The directories that an update may leave behind, next to the program.
pub fn cleanup_windows() -> (r: Vec<String>)
    ensures
        lists::texts(r@) == seq![WINDOWS_UPDATES@, "install"@, "old"@],
{
    let r = vec![WINDOWS_UPDATES.to_owned(), "install".to_owned(), "old".to_owned()];
    assert(lists::texts(r@) =~= seq![WINDOWS_UPDATES@, "install"@, "old"@]);
    r
}

/// The program that ends an update: a directory next to the program, and its name.
pub const WINDOWS_TOOLS: &'static str = "tools";

pub const WINDOWS_HELPER: &'static str = "auto_update_helper.exe";

/// How a release is installed on Windows.
pub struct WindowsInstall {
    /// The mark of a download, to be removed first.
    pub mark: String,
    /// The arguments of the installer.
    pub args: Vec<String>,
}

/// How a release is installed on Windows.
pub fn install_release_windows(installer: &str) -> (r: WindowsInstall)
    ensures
        r.mark@ == installer@ + ":Zone.Identifier"@,
        lists::texts(r.args@) == seq![
            "/verysilent"@,
            "/update=true"@,
            "/MERGETASKS=!desktopicon"@,
        ],
{
    let args = vec![
        "/verysilent".to_owned(),
        "/update=true".to_owned(),
        "/MERGETASKS=!desktopicon".to_owned(),
    ];
    assert(lists::texts(args@) =~= seq![
        "/verysilent"@,
        "/update=true"@,
        "/MERGETASKS=!desktopicon"@,
    ]);
    WindowsInstall { mark: text::join(installer, ":Zone.Identifier"), args }
}

/// The file that says that an installer has ended, among the downloads.
pub const FLAG_FILE: &'static str = "versions.txt";

/// The arguments with which the update is ended on quitting, where the installer has
/// left its flag.
pub fn finalize_auto_update_on_quit(flag_exists: bool) -> (r: Option<Vec<String>>)
    ensures
        match r {
            Some(args) => flag_exists && lists::texts(args@) == seq!["--launch"@, "false"@],
            None => !flag_exists,
        },
{
    if flag_exists {
        let args = vec!["--launch".to_owned(), "false".to_owned()];
        assert(lists::texts(args@) =~= seq!["--launch"@, "false"@]);
        Some(args)
    } else {
        None
    }
}

// ---------------------------------------------------------------------------
// Laws
// ---------------------------------------------------------------------------

/// Three systems have an installer, each its own with its own download; no other has one.
pub proof fn law_each_system_has_its_installer(os: Seq<char>)
    ensures
        installer_of("macos"@) == Some(Installer::MacOs),
        installer_of("linux"@) == Some(Installer::Linux),
        installer_of("windows"@) == Some(Installer::Windows),
        os != "macos"@ && os != "linux"@ && os != "windows"@ ==> installer_of(os) is None,
        download_name(Installer::MacOs) == "Zed.dmg"@,
        download_name(Installer::Linux) == "zed.tar.gz"@,
        download_name(Installer::Windows) == "Zed.exe"@,
{
    reveal_strlit("macos");
    reveal_strlit("linux");
    reveal_strlit("windows");
    assert("macos"@[0] == 'm' && "linux"@[0] == 'l');
    assert("windows"@.len() == 7 && "linux"@.len() == 5);
}

/// A missing rsync matters on Linux, where it is a missing dependency and the hint is told,
/// and on macOS; one that is there never does, and no other system needs it.
pub proof fn law_rsync_is_needed_on_two_systems(os: Seq<char>, hint: Seq<char>)
    ensures
        missing_dependency(os, true, hint) is None,
        os != "linux"@ && os != "macos"@ ==> missing_dependency(os, false, hint) is None,
        missing_dependency("linux"@, false, hint) matches Some(e) && e.missing_dependency
            && text::ends_with(e.message, hint),
        missing_dependency("macos"@, false, hint) matches Some(e) && !e.missing_dependency,
{
    law_each_system_has_its_installer(os);
    let said = "rsync is required for auto-updates but is not installed. "@ + hint;
    assert(said.skip(said.len() - hint.len()) =~= hint);
}

/// The hint names the package manager of the distribution, or of the one that it is like.
pub proof fn law_hint_fits_the_distribution(ids: Seq<Seq<char>>)
    ensures
        ids.contains("arch"@) ==> rsync_hint(ids) == "Install it with: sudo pacman -S rsync"@,
        !ids.contains("arch"@) && (ids.contains("debian"@) || ids.contains("ubuntu"@))
            ==> rsync_hint(ids) == "Install it with: sudo apt install rsync"@,
        !ids.contains("arch"@) && !ids.contains("debian"@) && !ids.contains("ubuntu"@) && (
        ids.contains("fedora"@) || ids.contains("rhel"@) || ids.contains("centos"@)
            || ids.contains("rocky"@) || ids.contains("almalinux"@)) ==> rsync_hint(ids)
            == "Install it with: sudo dnf install rsync"@,
        ids == seq!["nixos"@] ==> rsync_hint(ids) == "Install pkgs.rsync from nixpkgs"@,
        ids.len() == 0 ==> rsync_hint(ids) == "Please install rsync using your package manager"@,
{
    if ids == seq!["nixos"@] {
        reveal_strlit("nixos");
        reveal_strlit("arch");
        reveal_strlit("debian");
        reveal_strlit("ubuntu");
        reveal_strlit("fedora");
        reveal_strlit("rhel");
        reveal_strlit("centos");
        reveal_strlit("rocky");
        reveal_strlit("almalinux");
        assert(ids[0] == "nixos"@);
        assert("nixos"@[0] == 'n' && "rocky"@[0] == 'r');
    }
}

/// A line that sets the id names the distribution, quoted or not, and in small letters; the
/// lines of a file are read one by one.
pub proof fn law_release_file_names_the_distribution(
    name: Seq<char>,
    line: Seq<char>,
    rest: Seq<char>,
)
    requires
        name.len() > 0,
        !text::is_blank(name.last()),
        name[0] != '"',
        name.last() != '"',
        !line.contains('\n'),
    ensures
        line_ids("ID="@ + name) == seq![lowered_text(name)],
        line_ids("ID="@ + seq!['"'] + name + seq!['"']) == seq![lowered_text(name)],
        distribution_ids(line + seq!['\n'] + rest) == line_ids(line) + distribution_ids(rest),
{
    reveal_strlit("ID=");
    let key = "ID="@;
    assert(key[0] == 'I' && key[1] == 'D' && key[2] == '=');
    let plain = key + name;
    text::law_blanks_are_trimmed(Seq::empty(), plain, Seq::empty());
    assert(Seq::empty() + plain + Seq::empty() =~= plain);
    assert(plain.take(3) =~= key);
    assert(plain.skip(3) =~= name);
    lemma_unquoted(name, Seq::empty(), Seq::empty());
    assert(Seq::<char>::empty() + name + Seq::<char>::empty() =~= name);
    let quoted = key + seq!['"'] + name + seq!['"'];
    text::law_blanks_are_trimmed(Seq::empty(), quoted, Seq::empty());
    assert(Seq::empty() + quoted + Seq::empty() =~= quoted);
    assert(quoted.take(3) =~= key);
    assert(quoted.skip(3) =~= seq!['"'] + name + seq!['"']);
    lemma_unquoted(name, seq!['"'], seq!['"']);
    let all = line + seq!['\n'] + rest;
    assert forall|i: int| 0 <= i < line.len() implies all[i] != '\n' by {
        assert(line.contains(line[i]));
    }
    text::lemma_index_at(all, '\n', 0, line.len() as int);
    assert(all.subrange(0, line.len() as int) =~= line);
    lemma_later_lines(line + seq!['\n'], rest, 0);
    assert(all =~= (line + seq!['\n']) + rest);
}

pub proof fn lemma_unquoted(name: Seq<char>, front: Seq<char>, back: Seq<char>)
    requires
        name.len() > 0,
        name[0] != '"',
        name.last() != '"',
        forall|i: int| 0 <= i < front.len() ==> front[i] == '"',
        forall|i: int| 0 <= i < back.len() ==> back[i] == '"',
    ensures
        unquoted(front + name + back) == name,
    decreases front.len(), back.len(),
{
    let all = front + name + back;
    if front.len() > 0 {
        assert(all.skip(1) =~= front.skip(1) + name + back);
        lemma_unquoted(name, front.skip(1), back);
    } else {
        assert(all =~= name + back);
        assert(all[0] == name[0]);
        assert(without_leading(all, '"') == all);
        lemma_without_trailing(name, back);
    }
}

proof fn lemma_without_trailing(name: Seq<char>, back: Seq<char>)
    requires
        name.len() > 0,
        name.last() != '"',
        forall|i: int| 0 <= i < back.len() ==> back[i] == '"',
    ensures
        text::without_trailing(name + back, '"') == name,
    decreases back.len(),
{
    if back.len() == 0 {
        assert(name + back =~= name);
    } else {
        assert((name + back).drop_last() =~= name + back.drop_last());
        lemma_without_trailing(name, back.drop_last());
    }
}

/// The lines of a text are the same wherever it begins.
proof fn lemma_later_lines(front: Seq<char>, s: Seq<char>, from: int)
    requires
        0 <= from,
    ensures
        ids_from(front + s, front.len() + from) == ids_from(s, from),
    decreases s.len() - from,
{
    let all = front + s;
    if from < s.len() {
        lemma_shifted_index(front, s, from);
        let end = text::index_from(s, '\n', from);
        lemma_index_range(s, '\n', from);
        if end < s.len() {
            assert(all.subrange(front.len() + from, front.len() + end) =~= s.subrange(from, end));
            lemma_later_lines(front, s, end + 1);
        } else {
            assert(all.skip(front.len() + from) =~= s.skip(from));
        }
    }
}

proof fn lemma_index_range(s: Seq<char>, c: char, from: int)
    requires
        0 <= from <= s.len(),
    ensures
        from <= text::index_from(s, c, from) <= s.len(),
    decreases s.len() - from,
{
    if from < s.len() && s[from] != c {
        lemma_index_range(s, c, from + 1);
    }
}

proof fn lemma_shifted_index(front: Seq<char>, s: Seq<char>, from: int)
    requires
        0 <= from <= s.len(),
    ensures
        text::index_from(front + s, '\n', front.len() + from) == front.len() + text::index_from(
            s,
            '\n',
            from,
        ),
    decreases s.len() - from,
{
    if from < s.len() {
        assert((front + s)[front.len() + from] == s[from]);
        if s[from] != '\n' {
            lemma_shifted_index(front, s, from + 1);
        }
    }
}

/// Words are what stands between blanks: one more word behind a blank is one more word.
pub proof fn law_words_stand_between_blanks(s: Seq<char>, blank: char, word: Seq<char>)
    requires
        text::is_blank(blank),
        word.len() > 0,
        forall|i: int| 0 <= i < word.len() ==> !text::is_blank(#[trigger] word[i]),
    ensures
        words(s + seq![blank] + word) == words(s).push(word),
        words(s + seq![blank]) == words(s),
        words(word) == seq![word],
    decreases word.len(),
{
    let front = s + seq![blank];
    assert(front.drop_last() =~= s);
    assert(front.last() == blank);
    let all = front + word;
    let shorter = word.drop_last();
    assert(all.drop_last() =~= front + shorter);
    assert(all.last() == word[word.len() - 1]);
    assert(word.last() == word[word.len() - 1]);
    assert(shorter.push(word.last()) =~= word);
    if word.len() == 1 {
        assert(front + shorter =~= front);
        assert(all[all.len() - 2] == blank);
        assert(word =~= seq![word[0]]);
        assert(words(front) == words(front.drop_last()));
        assert(words(all) == words(all.drop_last()).push(seq![all.last()]));
        assert(shorter =~= Seq::empty());
        assert(words(shorter) =~= Seq::empty());
        assert(words(word) =~= seq![word]);
    } else {
        assert forall|i: int| 0 <= i < shorter.len() implies !text::is_blank(
            #[trigger] shorter[i],
        ) by {
            assert(shorter[i] == word[i]);
        }
        law_words_stand_between_blanks(s, blank, shorter);
        assert(all[all.len() - 2] == word[word.len() - 2]);
        let before = words(s).push(shorter);
        assert(words(all.drop_last()) == before);
        assert(words(all) == before.update(before.len() - 1, before.last().push(all.last())));
        assert(before.update(before.len() - 1, before.last().push(word.last())) =~= words(s).push(
            word,
        ));
        assert(words(word) =~= seq![word]);
    }
}

/// A program that runs from another place than the usual one is updated below the home
/// directory. Each channel has a directory of its own; that of the stable one has no suffix.
pub proof fn law_update_goes_below_home(
    channel: Seq<char>,
    home: Seq<char>,
    running: Option<Seq<char>>,
)
    requires
        running matches Some(path) ==> !text::ends_with(path, program_in(channel)),
    ensures
        home.len() > 0 && home.last() != '/' ==> linux_target(channel, home, running) == home
            + seq!['/'] + ".local"@,
        home.len() > 0 && home.last() == '/' ==> linux_target(channel, home, running) == home
            + ".local"@,
        app_folder("stable"@) == "zed"@ + ".app"@,
        channel != "stable"@ ==> app_folder(channel) == "zed"@ + seq!['-'] + channel + ".app"@,
        text::ends_with(program_in(channel), "/libexec/zed-editor"@),
{
    assert("zed"@ + (seq!['-'] + channel) + ".app"@ =~= "zed"@ + seq!['-'] + channel + ".app"@);
    let p = program_in(channel);
    let end = "/libexec/zed-editor"@;
    assert(p.skip(p.len() - end.len()) =~= end);
}

/// The distributions that one is like are told word by word; lines of other settings tell
/// nothing.
pub proof fn law_related_distributions_are_told(
    front: Seq<char>,
    name: Seq<char>,
    other: Seq<char>,
)
    requires
        name.len() > 0,
        forall|i: int|
            0 <= i < name.len() ==> !text::is_blank(#[trigger] name[i]) && name[i] != '"',
        front.len() > 0,
        !text::is_blank(front[0]),
        front[0] != '"',
        other.len() > 0,
        !text::is_blank(other[0]),
        !text::is_blank(other.last()),
        !text::begins_with(other, "ID="@),
        !text::begins_with(other, "ID_LIKE="@),
    ensures
        line_ids("ID_LIKE="@ + name) == seq![lowered_text(name)],
        line_ids("ID_LIKE="@ + (front + seq![' '] + name)) == lowered_texts(words(front)).push(
            lowered_text(name),
        ),
        line_ids(other).len() == 0,
{
    reveal_strlit("ID_LIKE=");
    reveal_strlit("ID=");
    let key = "ID_LIKE="@;
    assert(key.len() == 8 && key[0] == 'I' && key[2] == '_' && "ID="@[2] == '=');
    assert(!text::is_blank(name.last()) && name.last() != '"');
    assert(name[0] != '"');
    let one = key + name;
    lemma_like_line(name);
    law_words_stand_between_blanks(Seq::empty(), ' ', name);
    assert(lowered_texts(words(name)) =~= seq![lowered_text(name)]);
    let several = front + seq![' '] + name;
    assert(several[0] == front[0] && several.last() == name.last());
    lemma_like_line(several);
    law_words_stand_between_blanks(front, ' ', name);
    assert(lowered_texts(words(front).push(name)) =~= lowered_texts(words(front)).push(
        lowered_text(name),
    ));
    text::law_blanks_are_trimmed(Seq::empty(), other, Seq::empty());
    assert(Seq::empty() + other + Seq::empty() =~= other);
}

proof fn lemma_like_line(value: Seq<char>)
    requires
        value.len() > 0,
        !text::is_blank(value.last()),
        value[0] != '"',
        value.last() != '"',
    ensures
        line_ids("ID_LIKE="@ + value) == lowered_texts(words(value)),
{
    reveal_strlit("ID_LIKE=");
    reveal_strlit("ID=");
    let key = "ID_LIKE="@;
    assert(key.len() == 8 && key[0] == 'I' && key[2] == '_');
    let line = key + value;
    assert(line[0] == 'I' && line[2] == '_' && line.last() == value.last());
    text::law_blanks_are_trimmed(Seq::empty(), line, Seq::empty());
    assert(Seq::empty() + line + Seq::empty() =~= line);
    assert(line.take(8) =~= key);
    assert(line.take(3)[2] == '_');
    assert("ID="@[2] == '=');
    assert(line.skip(8) =~= value);
    lemma_unquoted(value, Seq::empty(), Seq::empty());
    assert(Seq::<char>::empty() + value + Seq::<char>::empty() =~= value);
}

} // verus!
