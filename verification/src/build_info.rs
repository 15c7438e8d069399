//! What is built into the product: its version, as its package file states it, and the
//! directory that it was built in.

use vstd::prelude::*;
use vstd::string::*;

use crate::install;
use crate::lists;
use crate::text;

verus! {

/// The first line from a position on that sets the version.
pub open spec fn version_line(s: Seq<char>, from: int) -> Option<Seq<char>>
    decreases s.len() - from,
{
    if from >= s.len() {
        None
    } else {
        let end = text::index_from(s, '\n', from);
        if from <= end < s.len() {
            if text::begins_with(s.subrange(from, end), "version = "@) {
                Some(s.subrange(from, end))
            } else {
                version_line(s, end + 1)
            }
        } else if text::begins_with(s.skip(from), "version = "@) {
            Some(s.skip(from))
        } else {
            None
        }
    }
}

/// What a line sets: what stands between its first two signs of equality, or behind
/// the only one, without blanks and quotation marks.
pub open spec fn value_of(line: Seq<char>) -> Seq<char> {
    let rest = line.skip(text::index_from(line, '=', 0) + 1);
    install::unquoted(text::trimmed(rest.take(text::index_from(rest, '=', 0))))
}

/// The version that a package file states.
pub open spec fn stated_version(s: Seq<char>) -> Option<Seq<char>> {
    match version_line(s, 0) {
        Some(line) => Some(value_of(line)),
        None => None,
    }
}

fn find_version_line(v: &Vec<char>) -> (r: Option<(usize, usize)>)
    ensures
        match r {
            Some((a, b)) => a <= b <= v.len() && version_line(v@, 0) == Some(
                v@.subrange(a as int, b as int),
            ) && text::begins_with(v@.subrange(a as int, b as int), "version = "@),
            None => version_line(v@, 0) is None,
        },
{
    let mut from: usize = 0;
    while from < v.len()
        invariant
            from <= v.len(),
            version_line(v@, 0) == version_line(v@, from as int),
        decreases v.len() - from,
    {
        let end = text::index_of(v, '\n', from);
        let line = text::string_of(v, from, end);
        let sets = text::after_prefix(line.as_str(), "version = ").is_some();
        if end == v.len() {
            assert(v@.subrange(from as int, end as int) =~= v@.skip(from as int));
            if sets {
                return Some((from, end));
            }
            return None;
        }
        if sets {
            return Some((from, end));
        }
        from = end + 1;
    }
    None
}

/// The version that a package file states: its first line that sets one counts.
pub fn package_version(cargo_toml: &str) -> (r: Option<String>)
    ensures
        lists::text_of(r) == stated_version(cargo_toml@),
{
    let v = text::chars_of(cargo_toml);
    match find_version_line(&v) {
        None => None,
        Some((a, b)) => {
            let line = text::chars_of(text::string_of(&v, a, b).as_str());
            let sign = text::index_of(&line, '=', 0);
            proof {
                reveal_strlit("version = ");
                assert(line@.take("version = "@.len() as int)[8] == line@[8]);
                lemma_index_before(line@, '=', 0, 8);
            }
            let from = sign + 1;
            let rest_text = text::string_of(&line, from, line.len());
            assert(rest_text@ =~= line@.skip(from as int));
            let rest = text::chars_of(rest_text.as_str());
            let end = text::index_of(&rest, '=', 0);
            let part = text::string_of(&rest, 0, end);
            assert(part@ =~= rest@.take(end as int));
            let t = text::trim(part.as_str());
            Some(install::unquote(t.as_str()))
        },
    }
}

proof fn lemma_index_before(s: Seq<char>, c: char, from: int, at: int)
    requires
        0 <= from <= at < s.len(),
        s[at] == c,
    ensures
        text::index_from(s, c, from) <= at,
    decreases at - from,
{
    if from < at && s[from] != c {
        lemma_index_before(s, c, from + 1, at);
    }
}

// ---------------------------------------------------------------------------
// The directory
// ---------------------------------------------------------------------------

/// How a path is written.
#[derive(Clone, Copy, Debug, PartialEq, Eq, Structural)]
pub enum PathStyle {
    /// Slashes between the parts.
    Unix,
    /// Slashes and backslashes between the parts, behind a drive or a share.
    Windows,
    /// Backslashes alone, behind a prefix that has the rest taken as it stands.
    Verbatim,
}

/// The character stands between the parts of a path.
pub open spec fn separates(style: PathStyle, c: char) -> bool {
    match style {
        PathStyle::Unix => c == '/',
        PathStyle::Windows => c == '/' || c == '\\',
        PathStyle::Verbatim => c == '\\',
    }
}

fn is_separator(style: PathStyle, c: char) -> (r: bool)
    ensures
        r == separates(style, c),
{
    match style {
        PathStyle::Unix => c == '/',
        PathStyle::Windows => c == '/' || c == '\\',
        PathStyle::Verbatim => c == '\\',
    }
}

/// Where the next separator stands, from a position on; else the length of the path.
pub open spec fn next_separator(p: Seq<char>, style: PathStyle, from: int) -> int
    decreases p.len() - from,
{
    if from < 0 || from >= p.len() {
        p.len() as int
    } else if separates(style, p[from]) {
        from
    } else {
        next_separator(p, style, from + 1)
    }
}

/// The position behind a separator, where one stands here.
pub open spec fn behind_root(p: Seq<char>, style: PathStyle, at: int) -> int {
    if 0 <= at < p.len() && separates(style, p[at]) {
        at + 1
    } else {
        at
    }
}

/// Where the names of a host and of a share end that begin here, if there are two.
pub open spec fn share_end(p: Seq<char>, style: PathStyle, from: int) -> Option<int> {
    let host = next_separator(p, style, from);
    let end = next_separator(p, style, host + 1);
    if from < host < p.len() && host + 1 < end {
        Some(end)
    } else {
        None
    }
}

pub open spec fn is_letter(c: char) -> bool {
    ('a' <= c && c <= 'z') || ('A' <= c && c <= 'Z')
}

/// How a path is written on a system.
pub open spec fn style_of(p: Seq<char>, windows: bool) -> PathStyle {
    if !windows {
        PathStyle::Unix
    } else if text::begins_with(p, "\\\\?\\"@) {
        PathStyle::Verbatim
    } else {
        PathStyle::Windows
    }
}

/// The length of what stands before the parts of a path: its drive or share, and the
/// root.
pub open spec fn front_of(p: Seq<char>, style: PathStyle) -> int {
    match style {
        PathStyle::Unix => behind_root(p, style, 0),
        PathStyle::Windows => if p.len() >= 2 && is_letter(p[0]) && p[1] == ':' {
            behind_root(p, style, 2)
        } else if p.len() >= 2 && separates(style, p[0]) && separates(style, p[1]) {
            match share_end(p, style, 2) {
                Some(end) => behind_root(p, style, end),
                None => 1,
            }
        } else {
            behind_root(p, style, 0)
        },
        PathStyle::Verbatim => if text::begins_with(p, "\\\\?\\UNC\\"@) {
            match share_end(p, style, 8) {
                Some(end) => behind_root(p, style, end),
                None => behind_root(p, style, next_separator(p, style, 8)),
            }
        } else {
            behind_root(p, style, next_separator(p, style, 4))
        },
    }
}

/// A path without what means nothing at its end: separators, and parts that are a dot. The
/// front is left, and so is a dot behind a verbatim prefix.
pub open spec fn ended(p: Seq<char>, style: PathStyle, front: int) -> Seq<char>
    decreases p.len(),
{
    if p.len() > front && p.len() > 0 && (separates(style, p.last()) || (p.last() == '.' && style
        != PathStyle::Verbatim && p.len() > 1 && separates(style, p[p.len() - 2]))) {
        ended(p.drop_last(), style, front)
    } else {
        p
    }
}

/// Where the last part of a path begins: after its last separator, or after the front.
pub open spec fn last_part_at(p: Seq<char>, style: PathStyle, front: int) -> int
    decreases p.len(),
{
    if p.len() <= front || p.len() == 0 || separates(style, p.last()) {
        p.len() as int
    } else {
        last_part_at(p.drop_last(), style, front)
    }
}

/// The path ends with this part.
pub open spec fn has_last_part(
    p: Seq<char>,
    style: PathStyle,
    front: int,
    part: Seq<char>,
) -> bool {
    let e = ended(p, style, front);
    e.skip(last_part_at(e, style, front)) == part
}

/// The path without its last part.
pub open spec fn parent_of(p: Seq<char>, style: PathStyle, front: int) -> Seq<char> {
    let e = ended(p, style, front);
    ended(e.take(last_part_at(e, style, front)), style, front)
}

/// The directory two above `crates/inspector_ui`, of a path with this front.
pub open spec fn sources_above(dir: Seq<char>, style: PathStyle, front: int) -> Option<Seq<char>> {
    let above = parent_of(dir, style, front);
    if has_last_part(dir, style, front, "inspector_ui"@) && has_last_part(
        above,
        style,
        front,
        "crates"@,
    ) {
        Some(parent_of(above, style, front))
    } else {
        None
    }
}

/// The directory two above `crates/inspector_ui`.
pub open spec fn repo_dir_of(dir: Seq<char>, windows: bool) -> Option<Seq<char>> {
    let style = style_of(dir, windows);
    sources_above(dir, style, front_of(dir, style))
}

fn find_separator(v: &Vec<char>, style: PathStyle, from: usize) -> (r: usize)
    requires
        from <= v.len(),
    ensures
        from <= r <= v.len(),
        r == next_separator(v@, style, from as int),
{
    let mut i: usize = from;
    while i < v.len() && !is_separator(style, v[i])
        invariant
            from <= i <= v.len(),
            next_separator(v@, style, from as int) == next_separator(v@, style, i as int),
        decreases v.len() - i,
    {
        i += 1;
    }
    i
}

fn after_root(v: &Vec<char>, style: PathStyle, at: usize) -> (r: usize)
    requires
        at <= v.len(),
    ensures
        at <= r <= v.len(),
        r == behind_root(v@, style, at as int),
{
    if at < v.len() && is_separator(style, v[at]) {
        at + 1
    } else {
        at
    }
}

fn find_share_end(v: &Vec<char>, style: PathStyle, from: usize) -> (r: Option<usize>)
    requires
        from <= v.len(),
    ensures
        match r {
            Some(end) => end <= v.len() && share_end(v@, style, from as int) == Some(end as int),
            None => share_end(v@, style, from as int) is None,
        },
{
    let host = find_separator(v, style, from);
    if from < host && host < v.len() {
        let end = find_separator(v, style, host + 1);
        if host + 1 < end {
            return Some(end);
        }
    }
    None
}

/// The length of the front of a path.
fn front_len(path: &str, v: &Vec<char>, style: PathStyle) -> (r: usize)
    requires
        v@ == path@,
        style is Verbatim ==> text::begins_with(v@, "\\\\?\\"@),
    ensures
        r <= v.len(),
        r == front_of(v@, style),
{
    match style {
        PathStyle::Unix => after_root(v, style, 0),
        PathStyle::Windows => {
            if v.len() >= 2 && (('a' <= v[0] && v[0] <= 'z') || ('A' <= v[0] && v[0] <= 'Z'))
                && v[1] == ':' {
                after_root(v, style, 2)
            } else if v.len() >= 2 && is_separator(style, v[0]) && is_separator(style, v[1]) {
                match find_share_end(v, style, 2) {
                    Some(end) => after_root(v, style, end),
                    None => 1,
                }
            } else {
                after_root(v, style, 0)
            }
        },
        PathStyle::Verbatim => {
            proof {
                reveal_strlit("\\\\?\\");
                reveal_strlit("\\\\?\\UNC\\");
            }
            if text::after_prefix(path, "\\\\?\\UNC\\").is_some() {
                match find_share_end(v, style, 8) {
                    Some(end) => after_root(v, style, end),
                    None => after_root(v, style, find_separator(v, style, 8)),
                }
            } else {
                after_root(v, style, find_separator(v, style, 4))
            }
        },
    }
}

/// The length of a path up to where it means something.
fn end_of(v: &Vec<char>, from_end: usize, style: PathStyle, front: usize) -> (r: usize)
    requires
        from_end <= v.len(),
    ensures
        r <= from_end,
        v@.take(r as int) == ended(v@.take(from_end as int), style, front as int),
{
    let mut n: usize = from_end;
    while n > front && n > 0 && (is_separator(style, v[n - 1]) || (v[n - 1] == '.' && style
        != PathStyle::Verbatim && n > 1 && is_separator(style, v[n - 2])))
        invariant
            n <= from_end <= v.len(),
            ended(v@.take(from_end as int), style, front as int) == ended(
                v@.take(n as int),
                style,
                front as int,
            ),
        decreases n,
    {
        assert(v@.take(n as int).drop_last() =~= v@.take(n - 1));
        n -= 1;
    }
    n
}

/// Where the last part begins of a path of this length.
fn part_start(v: &Vec<char>, n: usize, style: PathStyle, front: usize) -> (r: usize)
    requires
        n <= v.len(),
    ensures
        r <= n,
        r == last_part_at(v@.take(n as int), style, front as int),
{
    let mut i: usize = n;
    while i > front && i > 0 && !is_separator(style, v[i - 1])
        invariant
            i <= n <= v.len(),
            last_part_at(v@.take(n as int), style, front as int) == last_part_at(
                v@.take(i as int),
                style,
                front as int,
            ),
        decreases i,
    {
        assert(v@.take(i as int).drop_last() =~= v@.take(i - 1));
        i -= 1;
    }
    i
}

/// The path of this length without its last part, where that is the one that is named;
/// its length is returned.
fn without_part(v: &Vec<char>, n: usize, style: PathStyle, front: usize, part: &str) -> (r: Option<
    usize,
>)
    requires
        n <= v.len(),
    ensures
        match r {
            Some(m) => m <= n && has_last_part(v@.take(n as int), style, front as int, part@)
                && v@.take(m as int) == parent_of(v@.take(n as int), style, front as int),
            None => !has_last_part(v@.take(n as int), style, front as int, part@),
        },
{
    let end = end_of(v, n, style, front);
    let start = part_start(v, end, style, front);
    let ghost p = v@.take(end as int);
    let last = text::string_of(v, start, end);
    assert(last@ =~= p.skip(start as int));
    if !text::same(last.as_str(), part) {
        return None;
    }
    assert(p.take(start as int) =~= v@.take(start as int));
    Some(end_of(v, start, style, front))
}

/// The directory of the sources, from that of the package `crates/inspector_ui` in it; the
/// path is read as the system writes its paths.
pub fn repo_dir(manifest_dir: &str, windows: bool) -> (r: Option<String>)
    ensures
        lists::text_of(r) == repo_dir_of(manifest_dir@, windows),
{
    let v = text::chars_of(manifest_dir);
    let style = if !windows {
        PathStyle::Unix
    } else if text::after_prefix(manifest_dir, "\\\\?\\").is_some() {
        PathStyle::Verbatim
    } else {
        PathStyle::Windows
    };
    let front = front_len(manifest_dir, &v, style);
    assert(v@.take(v.len() as int) =~= v@);
    match without_part(&v, v.len(), style, front, "inspector_ui") {
        None => None,
        Some(n) => match without_part(&v, n, style, front, "crates") {
            None => None,
            Some(m) => {
                let dir = text::string_of(&v, 0, m);
                assert(dir@ =~= v@.take(m as int));
                Some(dir)
            },
        },
    }
}

/// The package directory of any sources leads back to them.
pub proof fn law_package_leads_back_to_sources(dir: Seq<char>)
    requires
        ended(dir, PathStyle::Unix, front_of(dir, PathStyle::Unix)) == dir,
        dir.len() > 0,
        dir.last() != '/',
    ensures
        repo_dir_of(dir + "/crates/inspector_ui"@, false) == Some(dir),
{
    reveal_strlit("/crates/inspector_ui");
    let p = dir + "/crates/inspector_ui"@;
    assert(p[0] == dir[0]);
    assert("/crates/inspector_ui"@ =~= package_below('/')) by {
        reveal_strlit("inspector_ui");
        reveal_strlit("crates");
    }
    lemma_package(dir, PathStyle::Unix, front_of(dir, PathStyle::Unix), '/');
}

/// So does that of sources on a drive, behind either separator.
pub proof fn law_package_on_a_drive_leads_back(drive: char, below: Seq<char>, separator: char)
    requires
        is_letter(drive),
        separates(PathStyle::Windows, separator),
        below.len() > 0,
        ({
            let dir = seq![drive, ':', separator] + below;
            ended(dir, PathStyle::Windows, 3) == dir && !separates(PathStyle::Windows, dir.last())
        }),
    ensures
        ({
            let dir = seq![drive, ':', separator] + below;
            repo_dir_of(dir + package_below(separator), true) == Some(dir)
        }),
{
    let dir = seq![drive, ':', separator] + below;
    let p = dir + package_below(separator);
    reveal_strlit("\\\\?\\");
    assert(p[0] == drive && p[1] == ':' && p[2] == separator);
    if text::begins_with(p, "\\\\?\\"@) {
        assert(p.take(4)[0] == p[0]);
    }
    assert(front_of(p, PathStyle::Windows) == 3);
    lemma_package(dir, PathStyle::Windows, 3, separator);
}

/// The path of the package below its sources.
pub open spec fn package_below(separator: char) -> Seq<char> {
    seq![separator] + "crates"@ + seq![separator] + "inspector_ui"@
}

proof fn lemma_package(dir: Seq<char>, style: PathStyle, front: int, separator: char)
    requires
        style is Unix || style is Windows,
        separates(style, separator),
        0 <= front <= dir.len(),
        dir.len() > 0,
        ended(dir, style, front) == dir,
        !separates(style, dir.last()),
    ensures
        sources_above(dir + package_below(separator), style, front) == Some(dir),
{
    reveal_strlit("inspector_ui");
    reveal_strlit("crates");
    let crates = dir + seq![separator] + "crates"@;
    let p = dir + package_below(separator);
    assert(p =~= crates + seq![separator] + "inspector_ui"@);
    lemma_joined(dir, "crates"@, style, front, separator);
    lemma_joined(crates, "inspector_ui"@, style, front, separator);
}

proof fn lemma_joined(
    dir: Seq<char>,
    part: Seq<char>,
    style: PathStyle,
    front: int,
    separator: char,
)
    requires
        separates(style, separator),
        0 <= front <= dir.len(),
        dir.len() > 0,
        ended(dir, style, front) == dir,
        !separates(style, dir.last()),
        part.len() > 0,
        part.last() != '.',
        forall|i: int| 0 <= i < part.len() ==> !separates(style, part[i]),
    ensures
        has_last_part(dir + seq![separator] + part, style, front, part),
        parent_of(dir + seq![separator] + part, style, front) == dir,
        ended(dir + seq![separator] + part, style, front) == dir + seq![separator] + part,
        !separates(style, (dir + seq![separator] + part).last()),
{
    let p = dir + seq![separator] + part;
    assert(p.last() == part.last());
    assert(!separates(style, part[part.len() - 1]));
    lemma_part_at(dir, part, style, front, separator);
    let at = last_part_at(p, style, front);
    assert(p.skip(at) =~= part);
    assert(p.take(at) =~= dir.push(separator));
    assert(dir.push(separator).drop_last() =~= dir);
}

proof fn lemma_part_at(
    dir: Seq<char>,
    part: Seq<char>,
    style: PathStyle,
    front: int,
    separator: char,
)
    requires
        separates(style, separator),
        0 <= front <= dir.len(),
        forall|i: int| 0 <= i < part.len() ==> !separates(style, part[i]),
    ensures
        last_part_at(dir + seq![separator] + part, style, front) == dir.len() + 1,
    decreases part.len(),
{
    let p = dir + seq![separator] + part;
    if part.len() == 0 {
        assert(p =~= dir.push(separator));
    } else {
        assert(p.last() == part[part.len() - 1]);
        assert(p.drop_last() =~= dir + seq![separator] + part.drop_last());
        lemma_part_at(dir, part.drop_last(), style, front, separator);
    }
}

/// The first line of a package file that sets a version is the one that counts, wherever it
/// stands, and what stands in its quotes is the version.
pub proof fn law_stated_version_is_found(v: Seq<char>, line: Seq<char>, rest: Seq<char>)
    requires
        v.len() > 0,
        !v.contains('=') && !v.contains('"') && !v.contains('\n'),
        !line.contains('\n'),
    ensures
        stated_version("version = "@ + seq!['"'] + v + seq!['"', '\n'] + rest) == Some(v),
        !text::begins_with(line, "version = "@) ==> stated_version(line + seq!['\n'] + rest)
            == stated_version(rest),
{
    let key = "version = "@;
    reveal_strlit("version = ");
    assert(key.len() == 10 && key[8] == '=' && key[9] == ' ');
    let set = key + seq!['"'] + v + seq!['"'];
    let all = key + seq!['"'] + v + seq!['"', '\n'] + rest;
    assert(all =~= set + seq!['\n'] + rest);
    assert forall|i: int| 0 <= i < v.len() implies v[i] != '=' && v[i] != '"' && v[i] != '\n' by {
        assert(v.contains(v[i]));
    }
    assert forall|i: int| 0 <= i < set.len() implies set[i] != '\n' by {
        if 11 <= i < 11 + v.len() {
            assert(set[i] == v[i - 11]);
        }
    }
    text::lemma_index_at(all, '\n', 0, set.len() as int);
    assert(all.subrange(0, set.len() as int) =~= set);
    assert(set.take(10) =~= key);
    text::lemma_index_at(set, '=', 0, 8);
    let tail = set.skip(9);
    let quoted = seq!['"'] + v + seq!['"'];
    assert(tail =~= seq![' '] + quoted);
    assert forall|i: int| 0 <= i < tail.len() implies tail[i] != '=' by {
        if 2 <= i < 2 + v.len() {
            assert(tail[i] == v[i - 2]);
        }
    }
    lemma_nowhere(tail, '=', 0);
    assert(tail.take(tail.len() as int) =~= tail);
    text::law_blanks_are_trimmed(seq![' '], quoted, Seq::empty());
    assert(seq![' '] + quoted + Seq::empty() =~= tail);
    assert(v[0] != '"' && v[v.len() - 1] != '"');
    install::lemma_unquoted(v, seq!['"'], seq!['"']);
    let other = line + seq!['\n'] + rest;
    assert forall|i: int| 0 <= i < line.len() implies other[i] != '\n' by {
        assert(line.contains(line[i]));
    }
    text::lemma_index_at(other, '\n', 0, line.len() as int);
    assert(other.subrange(0, line.len() as int) =~= line);
    lemma_later_version(line + seq!['\n'], rest, 0);
}

proof fn lemma_nowhere(s: Seq<char>, c: char, from: int)
    requires
        0 <= from <= s.len(),
        forall|i: int| from <= i < s.len() ==> s[i] != c,
    ensures
        text::index_from(s, c, from) == s.len(),
    decreases s.len() - from,
{
    if from < s.len() {
        lemma_nowhere(s, c, from + 1);
    }
}

/// The lines of a text set the same version wherever it begins.
proof fn lemma_later_version(front: Seq<char>, s: Seq<char>, from: int)
    requires
        0 <= from,
    ensures
        version_line(front + s, front.len() + from) == version_line(s, from),
    decreases s.len() - from,
{
    let all = front + s;
    if from < s.len() {
        lemma_later_index(front, s, '\n', from);
        let end = text::index_from(s, '\n', from);
        if from <= end < s.len() {
            assert(all.subrange(front.len() + from, front.len() + end) =~= s.subrange(from, end));
            lemma_later_version(front, s, end + 1);
        } else {
            assert(all.skip(front.len() + from) =~= s.skip(from));
        }
    }
}

proof fn lemma_later_index(front: Seq<char>, s: Seq<char>, c: char, from: int)
    requires
        0 <= from <= s.len(),
    ensures
        text::index_from(front + s, c, front.len() + from) == front.len() + text::index_from(
            s,
            c,
            from,
        ),
    decreases s.len() - from,
{
    if from < s.len() {
        assert((front + s)[front.len() + from] == s[from]);
        if s[from] != c {
            lemma_later_index(front, s, c, from + 1);
        }
    }
}

/// Which characters part a path, and which name a drive.
pub proof fn law_what_parts_a_path(c: char)
    ensures
        separates(PathStyle::Unix, c) <==> c == '/',
        separates(PathStyle::Windows, c) <==> c == '/' || c == '\\',
        separates(PathStyle::Verbatim, c) <==> c == '\\',
        is_letter(c) <==> (c as u32 >= 65 && c as u32 <= 90) || (c as u32 >= 97 && c as u32 <= 122),
{
}

/// What stands before the parts of a path: nothing or the root on Unix, a drive with its root,
/// or a host with its share.
pub proof fn law_fronts_of_paths(host: Seq<char>, share: Seq<char>, below: Seq<char>, drive: char)
    requires
        host.len() > 0,
        share.len() > 0,
        !host.contains('/') && !host.contains('\\'),
        !share.contains('/') && !share.contains('\\'),
        ('a' <= drive && drive <= 'z') || ('A' <= drive && drive <= 'Z'),
    ensures
        front_of(seq!['/'] + below, PathStyle::Unix) == 1,
        below.len() > 0 && below[0] != '/' ==> front_of(below, PathStyle::Unix) == 0,
        front_of(seq![drive, ':', '\\'] + below, PathStyle::Windows) == 3,
        front_of(seq![drive, ':'] + host, PathStyle::Windows) == 2,
        front_of(seq!['\\', '\\'] + host + seq!['\\'] + share + seq!['\\'] + below, PathStyle::Windows)
            == host.len() + share.len() + 4,
        front_of(seq!['\\', '\\', '?', '\\', drive, ':', '\\'] + below, PathStyle::Verbatim) == 7,
        front_of(
            "\\\\?\\UNC\\"@ + host + seq!['\\'] + share + seq!['\\'] + below,
            PathStyle::Verbatim,
        ) == host.len() + share.len() + 10,
{
    assert forall|i: int| 0 <= i < host.len() implies host[i] != '/' && host[i] != '\\' by {
        assert(host.contains(host[i]));
    }
    assert forall|i: int| 0 <= i < share.len() implies share[i] != '/' && share[i] != '\\' by {
        assert(share.contains(share[i]));
    }
    let rooted = seq!['/'] + below;
    assert(rooted[0] == '/');
    let on_drive = seq![drive, ':', '\\'] + below;
    assert(on_drive[0] == drive && on_drive[1] == ':' && on_drive[2] == '\\');
    let beside = seq![drive, ':'] + host;
    assert(beside[0] == drive && beside[1] == ':' && beside[2] == host[0]);
    let shared = seq!['\\', '\\'] + host + seq!['\\'] + share + seq!['\\'] + below;
    assert(shared[0] == '\\' && shared[1] == '\\');
    lemma_share(seq!['\\', '\\'], host, share, below, PathStyle::Windows);
    let verbatim = seq!['\\', '\\', '?', '\\', drive, ':', '\\'] + below;
    reveal_strlit("\\\\?\\UNC\\");
    let unc = "\\\\?\\UNC\\"@;
    assert(unc.len() == 8 && unc[4] == 'U' && unc[5] == 'N');
    if text::begins_with(verbatim, unc) {
        assert(verbatim.take(8)[5] == verbatim[5]);
    }
    assert(verbatim[4] == drive && verbatim[5] == ':' && verbatim[6] == '\\');
    lemma_separator_at(verbatim, PathStyle::Verbatim, 4, 6);
    let unc_shared = unc + host + seq!['\\'] + share + seq!['\\'] + below;
    assert(unc_shared.take(8) =~= unc);
    lemma_share(unc, host, share, below, PathStyle::Verbatim);
}

proof fn lemma_share(
    front: Seq<char>,
    host: Seq<char>,
    share: Seq<char>,
    below: Seq<char>,
    style: PathStyle,
)
    requires
        style != PathStyle::Unix,
        host.len() > 0,
        share.len() > 0,
        forall|i: int| 0 <= i < host.len() ==> host[i] != '/' && host[i] != '\\',
        forall|i: int| 0 <= i < share.len() ==> share[i] != '/' && share[i] != '\\',
    ensures
        ({
            let p = front + host + seq!['\\'] + share + seq!['\\'] + below;
            let end = front.len() + host.len() + 1 + share.len();
            share_end(p, style, front.len() as int) == Some(end as int) && behind_root(
                p,
                style,
                end as int,
            ) == end + 1
        }),
{
    let p = front + host + seq!['\\'] + share + seq!['\\'] + below;
    let f = front.len() as int;
    let h = f + host.len();
    let end = h + 1 + share.len();
    assert forall|i: int| f <= i < h implies p[i] == host[i - f] by {}
    assert(p[h] == '\\');
    assert forall|i: int| h + 1 <= i < end implies p[i] == share[i - h - 1] by {}
    assert(p[end] == '\\');
    lemma_separator_at(p, style, f, h);
    lemma_separator_at(p, style, h + 1, end);
}

proof fn lemma_separator_at(p: Seq<char>, style: PathStyle, from: int, at: int)
    requires
        0 <= from <= at < p.len(),
        separates(style, p[at]),
        forall|i: int| from <= i < at ==> !separates(style, #[trigger] p[i]),
    ensures
        next_separator(p, style, from) == at,
    decreases at - from,
{
    if from < at {
        lemma_separator_at(p, style, from + 1, at);
    }
}

} // verus!
