//! Pure inspection and rendering of the sshd `TrustedUserCAKeys` drop-in.
//!
//! This module performs **no I/O**: it only renders the canonical drop-in text
//! and parses provided configuration text. Writing the drop-in, validating with
//! `sshd -t`, and reloading are decided in [`crate::ops`]; this module supplies
//! the byte-exact content and the detection logic it relies on.
//!
//! Operations:
//!
//! * [`render_directive`] — the canonical `TrustedUserCAKeys <path>` line;
//! * [`render_dropin`] — the full managed drop-in file body;
//! * [`find_trusted_user_ca_keys`] — locate the effective directive value;
//! * [`includes_dropin_dir`] — detect whether the main config `Include`s the
//!   `sshd_config.d` drop-in directory (so a missing `Include` is reported
//!   clearly instead of silently ignored).
//!
//! The rendered drop-in configures the path it was rendered for:
//! [`dropin_configures_its_path`].

use vstd::prelude::*;
use vstd::slice::slice_subrange;

use crate::text;

verus! {

/// The sshd configuration keyword this daemon manages.
pub const DIRECTIVE_KEYWORD: &'static str = "TrustedUserCAKeys";

/// The conventional drop-in directory modern OpenSSH includes by default.
pub const DROPIN_DIR: &'static str = "/etc/ssh/sshd_config.d";

/// The drop-in file name this daemon manages. The `90-` prefix orders it late
/// so it takes precedence over earlier drop-ins for the keyword it sets.
pub const DROPIN_FILENAME: &'static str = "90-mayfly.conf";

// ---------------------------------------------------------------------------
// Rendering
// ---------------------------------------------------------------------------

/// The canonical directive line for a path.
pub open spec fn directive(path: Seq<char>) -> Seq<char> {
    "TrustedUserCAKeys"@ + " "@ + path
}

/// The two banner lines of the drop-in, with their line endings.
pub open spec fn banner() -> Seq<char> {
    "# Managed by mayfly-agent. Do not edit; changes are overwritten."@ + "\n"@
        + "# Configures the Mayfly-managed OpenSSH user-certificate trust anchor."@ + "\n"@
}

/// The full drop-in for a path: a "managed — do not edit" banner and the
/// directive.
pub open spec fn dropin(path: Seq<char>) -> Seq<char> {
    banner() + directive(path) + "\n"@
}

/// Render the canonical `TrustedUserCAKeys <path>` directive line.
///
/// The returned string has no trailing newline. This only renders text; it does
/// not write anything.
pub fn render_directive(trusted_ca_path: &str) -> (r: String)
    ensures
        r@ == directive(trusted_ca_path@),
{
    let mut out = DIRECTIVE_KEYWORD.to_owned();
    out.append(" ");
    out.append(trusted_ca_path);
    out
}

/// Render the full managed sshd drop-in body (with trailing newline).
///
/// The body is deterministic for a given `trusted_ca_path`, so the helper can
/// compare it against the on-disk drop-in to avoid needless rewrites/reloads. It
/// carries a clear "managed — do not edit" banner.
pub fn render_dropin(trusted_ca_path: &str) -> (r: String)
    ensures
        r@ == dropin(trusted_ca_path@),
{
    let mut out = "# Managed by mayfly-agent. Do not edit; changes are overwritten.".to_owned();
    out.append("\n");
    out.append("# Configures the Mayfly-managed OpenSSH user-certificate trust anchor.");
    out.append("\n");
    let line = render_directive(trusted_ca_path);
    out.append(line.as_str());
    out.append("\n");
    assert(out@ == dropin(trusted_ca_path@));
    out
}

// ---------------------------------------------------------------------------
// Includes
// ---------------------------------------------------------------------------

/// A line that sshd ignores: blank, or a `#` comment.
pub open spec fn ignored_line(line: Seq<char>) -> bool {
    text::trimmed(line).len() == 0 || text::trimmed(line)[0] == '#'
}

/// What precedes the last `/` of a pattern; the whole pattern if it has none.
pub open spec fn directory(pattern: Seq<char>) -> Seq<char> {
    match before_last_slash(pattern) {
        Some(dir) => dir,
        None => pattern,
    }
}

/// What precedes the last `/`, if there is one.
pub open spec fn before_last_slash(s: Seq<char>) -> Option<Seq<char>>
    decreases s.len(),
{
    if s.len() == 0 {
        None
    } else if s.last() == '/' {
        Some(s.drop_last())
    } else {
        before_last_slash(s.drop_last())
    }
}

/// The patterns that a line `Include`s; none unless it is an `Include` line.
/// Keywords are case-insensitive.
pub open spec fn include_patterns(line: Seq<char>) -> Seq<Seq<char>> {
    let entry = text::trimmed(line);
    if !ignored_line(line) && text::same_ignoring_case(text::first_word(entry), "Include"@) {
        text::words(text::after_word(entry))
    } else {
        Seq::empty()
    }
}

/// Whether the directory of a pattern is `dir`, trailing slashes aside.
pub open spec fn references(pattern: Seq<char>, dir: Seq<char>) -> bool {
    text::without_trailing(directory(pattern), '/') == text::without_trailing(dir, '/')
}

/// Whether some pattern references `dir`.
pub open spec fn some_references(patterns: Seq<Seq<char>>, dir: Seq<char>) -> bool {
    exists|j: int| 0 <= j < patterns.len() && references(#[trigger] patterns[j], dir)
}

/// Whether some line `Include`s `dir`.
pub open spec fn some_line_includes(lines: Seq<Seq<char>>, dir: Seq<char>) -> bool {
    exists|i: int|
        0 <= i < lines.len() && some_references(include_patterns(#[trigger] lines[i]), dir)
}

/// Detect whether `config_text` `Include`s the drop-in directory `dropin_dir`.
///
/// Modern OpenSSH ships `Include /etc/ssh/sshd_config.d/*.conf` in the default
/// `sshd_config`; without such an `Include`, a drop-in file is inert. We detect
/// an `Include` whose (whitespace-separated) values reference `dropin_dir` so a
/// missing include can be reported as an actionable error rather than silently
/// producing a no-op configuration. Commented and blank lines are ignored;
/// keywords are case-insensitive.
pub fn includes_dropin_dir(config_text: &str, dropin_dir: &str) -> (r: bool)
    ensures
        r == some_line_includes(text::lines(config_text@), dropin_dir@),
{
    let dir_chars = text::to_chars(dropin_dir);
    let needle = text::strip_trailing(dir_chars.as_slice(), '/');
    let chars = text::to_chars(config_text);
    let mut rest = chars.as_slice();
    while rest.len() > 0
        invariant
            needle@ == text::without_trailing(dropin_dir@, '/'),
            some_line_includes(text::lines(config_text@), dropin_dir@) == some_line_includes(
                text::lines(rest@),
                dropin_dir@,
            ),
        decreases rest@.len(),
    {
        let (line, tail) = text::split_line(rest);
        proof {
            text::lemma_lines_unfold(rest@);
            lemma_some_line_includes(line@, text::lines(tail@), dropin_dir@);
        }
        if line_includes(line, needle, Ghost(dropin_dir@)) {
            return true;
        }
        rest = tail;
    }
    false
}

/// Whether one line `Include`s the directory `needle`, which has no trailing
/// slash.
fn line_includes(line: &[char], needle: &[char], dir: Ghost<Seq<char>>) -> (r: bool)
    requires
        needle@ == text::without_trailing(dir@, '/'),
    ensures
        r == some_references(include_patterns(line@), dir@),
{
    let entry = text::trim(line);
    if entry.len() == 0 || entry[0] == '#' {
        return false;
    }
    let (keyword, after) = text::split_word(entry);
    if !text::eq_ignoring_case(keyword, "Include") {
        return false;
    }
    let mut rest = text::trim_start(after);
    proof {
        text::lemma_words_unfold(after@);
    }
    while rest.len() > 0
        invariant
            needle@ == text::without_trailing(dir@, '/'),
            rest@ == text::trimmed_start(rest@),
            some_references(include_patterns(line@), dir@) == some_references(
                text::words(rest@),
                dir@,
            ),
        decreases rest@.len(),
    {
        let (pattern, tail) = text::split_word(rest);
        proof {
            text::lemma_words_unfold(rest@);
            text::lemma_words_unfold(tail@);
            lemma_some_references(pattern@, text::words(tail@), dir@);
            text::lemma_trimmed_start(tail@);
        }
        if text::chars_eq(text::strip_trailing(directory_of(pattern), '/'), needle) {
            return true;
        }
        rest = text::trim_start(tail);
    }
    false
}

/// What precedes the last `/` of a pattern; the whole pattern if it has none.
fn directory_of(pattern: &[char]) -> (r: &[char])
    ensures
        r@ == directory(pattern@),
{
    let mut n: usize = pattern.len();
    assert(pattern@.take(n as int) == pattern@);
    while n > 0
        invariant
            n <= pattern@.len(),
            before_last_slash(pattern@) == before_last_slash(pattern@.take(n as int)),
        decreases n,
    {
        assert(pattern@.take(n as int).drop_last() == pattern@.take(n - 1));
        if pattern[n - 1] == '/' {
            return slice_subrange(pattern, 0, n - 1);
        }
        n -= 1;
    }
    pattern
}

proof fn lemma_some_references(pattern: Seq<char>, more: Seq<Seq<char>>, dir: Seq<char>)
    ensures
        some_references(seq![pattern] + more, dir) == (references(pattern, dir) || some_references(
            more,
            dir,
        )),
{
    let all = seq![pattern] + more;
    assert(all[0] == pattern);
    assert(forall|j: int| 0 <= j < more.len() ==> #[trigger] more[j] == all[j + 1]);
    assert(forall|j: int| 1 <= j < all.len() ==> #[trigger] all[j] == more[j - 1]);
}

proof fn lemma_some_line_includes(line: Seq<char>, more: Seq<Seq<char>>, dir: Seq<char>)
    ensures
        some_line_includes(seq![line] + more, dir) == (some_references(include_patterns(line), dir)
            || some_line_includes(more, dir)),
{
    let all = seq![line] + more;
    assert(all[0] == line);
    assert(forall|j: int| 0 <= j < more.len() ==> #[trigger] more[j] == all[j + 1]);
    assert(forall|j: int| 1 <= j < all.len() ==> #[trigger] all[j] == more[j - 1]);
}

// ---------------------------------------------------------------------------
// The effective directive
// ---------------------------------------------------------------------------

/// The number of characters before the first whitespace or `=`, either of which
/// sshd accepts between a keyword and its value.
pub open spec fn keyword_len(s: Seq<char>) -> nat
    decreases s.len(),
{
    if s.len() == 0 || text::whitespace(s[0]) || s[0] == '=' {
        0
    } else {
        1 + keyword_len(s.skip(1))
    }
}

/// The value that a line gives to `TrustedUserCAKeys`, possibly empty; `None`
/// if the line is not such a directive.
pub open spec fn directive_value(line: Seq<char>) -> Option<Seq<char>> {
    let entry = text::trimmed(line);
    let n = keyword_len(entry) as int;
    if !ignored_line(line) && n < entry.len() && text::same_ignoring_case(
        entry.take(n),
        "TrustedUserCAKeys"@,
    ) {
        Some(text::trimmed(text::without_leading(text::trimmed(entry.skip(n + 1)), '=')))
    } else {
        None
    }
}

/// The value of the first directive among the lines, unless that is empty.
pub open spec fn first_value(lines: Seq<Seq<char>>) -> Option<Seq<char>>
    decreases lines.len(),
{
    if lines.len() == 0 {
        None
    } else {
        match directive_value(lines[0]) {
            Some(value) => if value.len() == 0 {
                None
            } else {
                Some(value)
            },
            None => first_value(lines.skip(1)),
        }
    }
}

/// Find the effective `TrustedUserCAKeys` value in `config_text`, if present.
///
/// sshd applies the *first* matching directive, and keywords are
/// case-insensitive. Commented (`#`) and blank lines are ignored. Returns the
/// directive's value (the remainder of the line) with surrounding whitespace
/// trimmed.
pub fn find_trusted_user_ca_keys(config_text: &str) -> (r: Option<String>)
    ensures
        match first_value(text::lines(config_text@)) {
            Some(value) => r matches Some(v) && v@ == value,
            None => r is None,
        },
{
    let chars = text::to_chars(config_text);
    let mut rest = chars.as_slice();
    while rest.len() > 0
        invariant
            first_value(text::lines(config_text@)) == first_value(text::lines(rest@)),
        decreases rest@.len(),
    {
        let (line, tail) = text::split_line(rest);
        proof {
            text::lemma_lines_unfold(rest@);
            assert((seq![line@] + text::lines(tail@)).skip(1) == text::lines(tail@));
        }
        if let Some(value) = value_of(line) {
            if value.len() == 0 {
                return None;
            }
            return Some(text::from_chars(value));
        }
        rest = tail;
    }
    None
}

/// The value that one line gives to `TrustedUserCAKeys`.
fn value_of(line: &[char]) -> (r: Option<&[char]>)
    ensures
        match directive_value(line@) {
            Some(value) => r matches Some(v) && v@ == value,
            None => r is None,
        },
{
    let entry = text::trim(line);
    if entry.len() == 0 || entry[0] == '#' {
        return None;
    }
    let mut n: usize = 0;
    assert(entry@.skip(0) == entry@);
    while n < entry.len() && !text::is_whitespace(entry[n]) && entry[n] != '='
        invariant
            n <= entry@.len(),
            keyword_len(entry@) == n + keyword_len(entry@.skip(n as int)),
        decreases entry@.len() - n,
    {
        assert(entry@.skip(n as int).skip(1) == entry@.skip(n + 1));
        n += 1;
    }
    if n >= entry.len() {
        return None;
    }
    if !text::eq_ignoring_case(slice_subrange(entry, 0, n), DIRECTIVE_KEYWORD) {
        return None;
    }
    let rest = text::trim(slice_subrange(entry, n + 1, entry.len()));
    Some(text::trim(text::strip_leading(rest, '=')))
}

// ---------------------------------------------------------------------------
// Laws
// ---------------------------------------------------------------------------

/// A path that a directive can carry: non-empty, on one line, without
/// surrounding whitespace, and not starting with the `=` that sshd accepts
/// between a keyword and its value.
pub open spec fn plain_path(path: Seq<char>) -> bool {
    &&& path.len() > 0
    &&& path[0] != '='
    &&& text::trimmed(path) == path
    &&& !path.contains('\n')
}

/// The drop-in rendered for a path parses as setting exactly that path; this
/// holds for the paths that a directive can carry, and for no others.
pub proof fn dropin_configures_its_path(path: Seq<char>)
    ensures
        first_value(text::lines(dropin(path))) == Some(path) <==> plain_path(path),
{
    if path.len() > 0 && text::trimmed(path) == path && !path.contains('\n') {
        lemma_lines_of_dropin(path);
        lemma_banner_lines();
        lemma_value_of_directive(path);
        let all = text::lines(dropin(path));
        let second = all.skip(1);
        let third = second.skip(1);
        assert(first_value(all) == first_value(second));
        assert(second[0] == banner_second());
        assert(first_value(second) == first_value(third));
        assert(third[0] == directive(path));
        lemma_without_leading(path, '=');
        lemma_trimmed_is_not_longer(text::without_leading(path, '='));
    } else {
        text::lemma_lines_have_no_newline(dropin(path));
        lemma_first_value(text::lines(dropin(path)));
    }
}

/// A slash at the end of the drop-in directory makes no difference.
pub proof fn trailing_slash_makes_no_difference(lines: Seq<Seq<char>>, dir: Seq<char>)
    ensures
        some_line_includes(lines, dir.push('/')) == some_line_includes(lines, dir),
{
    assert(dir.push('/').drop_last() == dir);
    assert(text::without_trailing(dir.push('/'), '/') == text::without_trailing(dir, '/'));
    assert forall|patterns: Seq<Seq<char>>| #[trigger]
        some_references(patterns, dir.push('/')) == some_references(patterns, dir) by {
        assert(forall|j: int|
            0 <= j < patterns.len() ==> references(#[trigger] patterns[j], dir.push('/'))
                == references(patterns[j], dir));
    }
}

/// Comments and blank lines make no difference: one in front of other lines
/// changes neither the effective value nor what is included.
pub proof fn ignored_lines_make_no_difference(line: Seq<char>, rest: Seq<Seq<char>>, dir: Seq<char>)
    requires
        ignored_line(line),
    ensures
        first_value(seq![line] + rest) == first_value(rest),
        some_line_includes(seq![line] + rest, dir) == some_line_includes(rest, dir),
{
    assert((seq![line] + rest).skip(1) == rest);
    lemma_some_line_includes(line, rest, dir);
}

/// The first directive is the effective one: lines after it make no difference.
pub proof fn later_lines_make_no_difference(lines: Seq<Seq<char>>, i: int, more: Seq<Seq<char>>)
    requires
        0 <= i < lines.len(),
        directive_value(lines[i]) is Some,
    ensures
        first_value(lines + more) == first_value(lines),
    decreases i,
{
    let all = lines + more;
    assert(all[0] == lines[0]);
    assert(all.skip(1) == lines.skip(1) + more);
    if i > 0 {
        later_lines_make_no_difference(lines.skip(1), i - 1, more);
    }
}

spec fn banner_first() -> Seq<char> {
    "# Managed by mayfly-agent. Do not edit; changes are overwritten."@
}

spec fn banner_second() -> Seq<char> {
    "# Configures the Mayfly-managed OpenSSH user-certificate trust anchor."@
}

proof fn lemma_trimmed_is_not_longer(s: Seq<char>)
    ensures
        text::trimmed(s).len() <= s.len(),
{
    text::lemma_trimmed(s);
}

proof fn lemma_without_leading(s: Seq<char>, c: char)
    ensures
        text::without_leading(s, c).len() <= s.len(),
        s.len() > 0 && s[0] == c ==> text::without_leading(s, c).len() < s.len(),
        s.len() > 0 && s[0] != c ==> text::without_leading(s, c) == s,
    decreases s.len(),
{
    if s.len() > 0 && s[0] == c {
        lemma_without_leading(s.skip(1), c);
    }
}

/// Banner lines are comments, on one line each.
proof fn lemma_banner_lines()
    ensures
        ignored_line(banner_first()),
        ignored_line(banner_second()),
        !banner_first().contains('\n'),
        !banner_second().contains('\n'),
        banner_first().len() > 0,
        banner_second().len() > 0,
        banner_first().last() != '\r',
        banner_second().last() != '\r',
{
    reveal_strlit("# Managed by mayfly-agent. Do not edit; changes are overwritten.");
    reveal_strlit("# Configures the Mayfly-managed OpenSSH user-certificate trust anchor.");
    text::lemma_already_trimmed(banner_first());
    text::lemma_already_trimmed(banner_second());
}

proof fn lemma_lines_of_dropin(path: Seq<char>)
    requires
        path.len() > 0,
        text::trimmed(path) == path,
        !path.contains('\n'),
    ensures
        text::lines(dropin(path)) == seq![banner_first(), banner_second(), directive(path)],
{
    reveal_strlit("\n");
    reveal_strlit("TrustedUserCAKeys");
    text::lemma_space();
    text::lemma_trimmed(path);
    lemma_banner_lines();
    let line = directive(path);
    assert("\n"@ == seq!['\n']);
    assert(line.last() == path.last());
    assert forall|i: int| 0 <= i < line.len() implies #[trigger] line[i] != '\n' by {
        if i < 17 {
            assert(line[i] == "TrustedUserCAKeys"@[i]);
        } else if i > 17 {
            assert(line[i] == path[i - 18]);
        }
    }
    let last = line.push('\n') + Seq::<char>::empty();
    let second = banner_second().push('\n') + last;
    assert(dropin(path) == banner_first().push('\n') + second);
    text::lemma_lines_of_line_and_rest(line, Seq::empty());
    text::lemma_lines_of_line_and_rest(banner_second(), last);
    text::lemma_lines_of_line_and_rest(banner_first(), second);
}

proof fn lemma_value_of_directive(path: Seq<char>)
    requires
        path.len() > 0,
        text::trimmed(path) == path,
    ensures
        directive_value(directive(path)) == Some(text::trimmed(text::without_leading(path, '='))),
{
    reveal_strlit("TrustedUserCAKeys");
    text::lemma_space();
    text::lemma_trimmed(path);
    let line = directive(path);
    assert(line[0] == 'T');
    assert(line.last() == path.last());
    text::lemma_already_trimmed(line);
    lemma_keyword_len(line);
    let n = keyword_len(line) as int;
    assert(line[17] == ' ');
    if n < 17 {
        assert(line[n] == "TrustedUserCAKeys"@[n]);
    }
    assert(n == 17);
    assert(line.take(n) == "TrustedUserCAKeys"@);
    assert(line.skip(n + 1) == path);
}

/// What [`keyword_len`] counts: the characters up to the first separator.
proof fn lemma_keyword_len(s: Seq<char>)
    ensures
        keyword_len(s) <= s.len(),
        forall|i: int|
            0 <= i < keyword_len(s) ==> !text::whitespace(#[trigger] s[i]) && s[i] != '=',
        keyword_len(s) < s.len() ==> text::whitespace(s[keyword_len(s) as int])
            || s[keyword_len(s) as int] == '=',
    decreases s.len(),
{
    if s.len() > 0 && !text::whitespace(s[0]) && s[0] != '=' {
        lemma_keyword_len(s.skip(1));
        assert forall|i: int| 0 <= i < keyword_len(s) implies !text::whitespace(#[trigger] s[i])
            && s[i] != '=' by {
            if i > 0 {
                assert(s.skip(1)[i - 1] == s[i]);
            }
        }
    }
}

/// A found value is non-empty, trimmed and on one line.
proof fn lemma_first_value(lines: Seq<Seq<char>>)
    requires
        forall|i: int| 0 <= i < lines.len() ==> !(#[trigger] lines[i]).contains('\n'),
    ensures
        first_value(lines) matches Some(v) ==> {
            &&& v.len() > 0
            &&& text::trimmed(v) == v
            &&& !v.contains('\n')
        },
    decreases lines.len(),
{
    if lines.len() > 0 {
        lemma_first_value(lines.skip(1));
        if let Some(v) = directive_value(lines[0]) {
            let entry = text::trimmed(lines[0]);
            let rest = entry.skip(keyword_len(entry) as int + 1);
            let value = text::without_leading(text::trimmed(rest), '=');
            text::lemma_trimmed(lines[0]);
            text::lemma_trimmed(rest);
            text::lemma_trimmed(value);
            lemma_without_leading_is_part(text::trimmed(rest), '=');
            lemma_part_has_no_newline(
                lines[0],
                lines[0].len() - text::trimmed_start(lines[0]).len(),
                entry,
            );
            lemma_part_has_no_newline(entry, keyword_len(entry) as int + 1, rest);
            lemma_part_has_no_newline(
                rest,
                rest.len() - text::trimmed_start(rest).len(),
                text::trimmed(rest),
            );
            lemma_part_has_no_newline(
                text::trimmed(rest),
                text::trimmed(rest).len() - value.len(),
                value,
            );
            lemma_part_has_no_newline(value, value.len() - text::trimmed_start(value).len(), v);
        }
    }
}

proof fn lemma_without_leading_is_part(s: Seq<char>, c: char)
    ensures
        text::without_leading(s, c).len() <= s.len(),
        text::without_leading(s, c) == s.skip(s.len() - text::without_leading(s, c).len()),
    decreases s.len(),
{
    if s.len() > 0 && s[0] == c {
        lemma_without_leading_is_part(s.skip(1), c);
        let n = s.len() - text::without_leading(s, c).len();
        assert(s.skip(1).skip(n - 1) == s.skip(n));
    } else {
        assert(s.skip(0) == s);
    }
}

proof fn lemma_part_has_no_newline(whole: Seq<char>, from: int, part: Seq<char>)
    requires
        !whole.contains('\n'),
        0 <= from,
        from + part.len() <= whole.len(),
        part =~= whole.subrange(from, from + part.len()),
    ensures
        !part.contains('\n'),
{
    assert forall|i: int| 0 <= i < part.len() implies #[trigger] part[i] != '\n' by {
        assert(part[i] == whole[from + i]);
    }
}

// ---------------------------------------------------------------------------
// What is rendered, and what is read
// ---------------------------------------------------------------------------

/// The rendered drop-in is the same text for every path, but for the path, and
/// the directive is its last line.
pub proof fn dropin_is_rendered_to_the_letter(path: &str, line: String, body: String)
    requires
        call_ensures(render_directive, (path,), line),
        call_ensures(render_dropin, (path,), body),
    ensures
        line@ == "TrustedUserCAKeys "@ + path@,
        body@
            == "# Managed by mayfly-agent. Do not edit; changes are overwritten.\n# Configures the Mayfly-managed OpenSSH user-certificate trust anchor.\nTrustedUserCAKeys "@
            + path@ + "\n"@,
{
    reveal_strlit("TrustedUserCAKeys ");
    reveal_strlit("TrustedUserCAKeys");
    reveal_strlit(" ");
    reveal_strlit("\n");
    reveal_strlit("# Managed by mayfly-agent. Do not edit; changes are overwritten.");
    reveal_strlit("# Configures the Mayfly-managed OpenSSH user-certificate trust anchor.");
    reveal_strlit(
        "# Managed by mayfly-agent. Do not edit; changes are overwritten.\n# Configures the Mayfly-managed OpenSSH user-certificate trust anchor.\nTrustedUserCAKeys ",
    );
    assert("TrustedUserCAKeys "@ == "TrustedUserCAKeys"@ + " "@);
    let head =
        "# Managed by mayfly-agent. Do not edit; changes are overwritten.\n# Configures the Mayfly-managed OpenSSH user-certificate trust anchor.\nTrustedUserCAKeys "@;
    assert(head == banner() + "TrustedUserCAKeys "@);
    assert(dropin(path@) == head + path@ + "\n"@);
}

/// Whether a line, read as some whitespace, a keyword and what follows it, gives
/// `TrustedUserCAKeys` a value: it is no comment, the keyword is that one, in any
/// case, and something other than whitespace follows. The keyword ends at the
/// first whitespace or `=`.
pub open spec fn sets_trusted_ca(keyword: Seq<char>, follows: Seq<char>) -> bool {
    text::same_up_to_case(keyword, "TrustedUserCAKeys"@) && !text::blank(follows)
}

/// Whether a line is some whitespace, a keyword and what follows it.
pub open spec fn keyword_line(
    line: Seq<char>,
    left: Seq<char>,
    keyword: Seq<char>,
    follows: Seq<char>,
) -> bool {
    &&& line == left + keyword + follows
    &&& text::blank(left)
    &&& forall|i: int|
        0 <= i < keyword.len() ==> !text::whitespace(#[trigger] keyword[i]) && keyword[i] != '='
    &&& follows.len() == 0 || text::whitespace(follows[0]) || follows[0] == '='
    &&& keyword.len() == 0 ==> follows.len() == 0 || follows[0] == '='
}

/// The configuration is read line by line, and the first line that gives
/// `TrustedUserCAKeys` a value decides. The value is what follows the keyword,
/// without whitespace and `=` in front of it and without whitespace behind it; an
/// empty one counts as none. Any other line makes no difference.
pub proof fn first_directive_decides(
    config: &str,
    line: Seq<char>,
    ending: Seq<char>,
    rest: &str,
    left: Seq<char>,
    keyword: Seq<char>,
    follows: Seq<char>,
    margins: (Seq<char>, Seq<char>, Seq<char>, Seq<char>),
    value: Seq<char>,
    r: Option<String>,
    rest_r: Option<String>,
)
    requires
        config@ == line + ending + rest@,
        !line.contains('\n'),
        ending == seq!['\r', '\n'] || ending == seq!['\n'] && (line.len() > 0 ==> line.last()
            != '\r'),
        keyword_line(line, left, keyword, follows),
        call_ensures(find_trusted_user_ca_keys, (config,), r),
        call_ensures(find_trusted_user_ca_keys, (rest,), rest_r),
    ensures
        !sets_trusted_ca(keyword, follows) ==> match r {
            Some(v) => rest_r matches Some(w) && v@ == w@,
            None => rest_r is None,
        },
        sets_trusted_ca(keyword, follows) && follows == follows.take(1) + margins.0 + margins.1
            + margins.2 + value + margins.3 && text::blank(margins.0) && text::blank(margins.2)
            && text::blank(margins.3) && (forall|i: int|
            0 <= i < margins.1.len() ==> #[trigger] margins.1[i] == '=') && (margins.1.len() == 0
            ==> margins.2.len() == 0) && (value.len() > 0 ==> !text::whitespace(value[0])
            && !text::whitespace(value.last()) && (margins.2.len() == 0 ==> value[0] != '='))
            && (value.len() == 0 ==> margins.2.len() == 0) ==> match r {
            Some(v) => value.len() > 0 && v@ == value,
            None => value.len() == 0,
        },
{
    text::lines_are_separated_by_line_endings(line, ending, rest@);
    assert((seq![line] + text::lines(rest@)).skip(1) == text::lines(rest@));
    text::comments_begin_with_a_hash(line);
    text::lemma_same_up_to_case(keyword, "TrustedUserCAKeys"@);
    lemma_keyword_line(line, left, keyword, follows);
    if sets_trusted_ca(keyword, follows) && follows == follows.take(1) + margins.0 + margins.1
        + margins.2 + value + margins.3 && text::blank(margins.0) && text::blank(margins.2)
        && text::blank(margins.3) && (forall|i: int|
        0 <= i < margins.1.len() ==> #[trigger] margins.1[i] == '=') && (margins.1.len() == 0
        ==> margins.2.len() == 0) && (value.len() > 0 ==> !text::whitespace(value[0])
        && !text::whitespace(value.last()) && (margins.2.len() == 0 ==> value[0] != '=')) && (
    value.len() == 0 ==> margins.2.len() == 0) {
        lemma_value_follows(follows, margins, value);
    }
}

/// What [`directive_value`] makes of a keyword line.
proof fn lemma_keyword_line(
    line: Seq<char>,
    left: Seq<char>,
    keyword: Seq<char>,
    follows: Seq<char>,
)
    requires
        keyword_line(line, left, keyword, follows),
    ensures
        directive_value(line) == if text::same_ignoring_case(keyword, "TrustedUserCAKeys"@)
            && !text::blank(follows) {
            Some(
                text::trimmed(
                    text::without_leading(text::trimmed(text::trimmed_end(follows).skip(1)), '='),
                ),
            )
        } else {
            None
        },
{
    reveal_strlit("TrustedUserCAKeys");
    let entry = text::trimmed(line);
    let tail = text::trimmed_end(follows);
    let right = follows.skip(tail.len() as int);
    text::lemma_trimmed_end(follows);
    text::only_blank_text_trims_to_nothing(follows);
    text::only_blank_text_trims_to_nothing(line);
    assert(follows == tail + right);
    let core = keyword + tail;
    assert(line == left + core + right);
    assert(text::blank(right)) by {
        assert forall|i: int| 0 <= i < right.len() implies text::whitespace(#[trigger] right[i]) by {
            assert(right[i] == follows[tail.len() + i]);
        }
    }
    if core.len() == 0 {
        assert(text::blank(line)) by {
            assert forall|i: int| 0 <= i < line.len() implies text::whitespace(#[trigger] line[i]) by {
                if i < left.len() {
                    assert(line[i] == left[i]);
                } else {
                    assert(line[i] == right[i - left.len()]);
                }
            }
        }
        assert(ignored_line(line));
    } else {
        if keyword.len() > 0 {
            assert(core[0] == keyword[0]);
        } else {
            assert(core[0] == tail[0]);
            assert(tail[0] == follows[0]);
        }
        if tail.len() > 0 {
            assert(core.last() == tail.last());
        } else {
            assert(core.last() == keyword.last());
        }
        text::trimming_leaves_the_core(left, core, right);
        assert(entry == core);
        lemma_keyword_len(entry);
        let n = keyword_len(entry) as int;
        if n < keyword.len() {
            assert(entry[n] == keyword[n]);
        }
        if n > keyword.len() {
            assert(entry[keyword.len() as int] == tail[0]);
            assert(tail[0] == follows[0]);
        }
        assert(n == keyword.len());
        assert(entry.take(n) == keyword);
        if tail.len() > 0 {
            assert(entry.skip(n + 1) == tail.skip(1));
        }
        if text::same_ignoring_case(keyword, "TrustedUserCAKeys"@) {
            assert(text::ascii_lower(keyword[0]) == text::ascii_lower("TrustedUserCAKeys"@[0]));
            assert(entry[0] != '#');
        }
    }
    assert(text::trimmed_end(follows).len() == 0 <==> text::blank(follows)) by {
        if text::blank(follows) && tail.len() > 0 {
            assert(tail.last() == follows[tail.len() - 1]);
        }
        if tail.len() == 0 {
            assert(right == follows);
        }
    }
}

/// What is left of what follows a keyword.
proof fn lemma_value_follows(
    follows: Seq<char>,
    margins: (Seq<char>, Seq<char>, Seq<char>, Seq<char>),
    value: Seq<char>,
)
    requires
        !text::blank(follows),
        follows.len() > 0,
        text::whitespace(follows[0]) || follows[0] == '=',
        follows == follows.take(1) + margins.0 + margins.1 + margins.2 + value + margins.3,
        text::blank(margins.0),
        text::blank(margins.2),
        text::blank(margins.3),
        forall|i: int| 0 <= i < margins.1.len() ==> #[trigger] margins.1[i] == '=',
        margins.1.len() == 0 ==> margins.2.len() == 0,
        value.len() > 0 ==> !text::whitespace(value[0]) && !text::whitespace(value.last()) && (
        margins.2.len() == 0 ==> value[0] != '='),
        value.len() == 0 ==> margins.2.len() == 0,
    ensures
        text::trimmed(
            text::without_leading(text::trimmed(text::trimmed_end(follows).skip(1)), '='),
        ) == value,
{
    let (w0, eqs, w2, w3) = margins;
    let sep = follows.take(1);
    let inner = eqs + w2 + value;
    let none = Seq::<char>::empty();
    assert(!text::whitespace('='));
    assert(sep[0] == follows[0]);
    if inner.len() > 0 {
        let head = sep + w0 + inner;
        assert(follows == head + w3);
        if value.len() > 0 {
            assert(head.last() == value.last());
        } else {
            assert(inner == eqs);
            assert(head.last() == eqs[eqs.len() - 1]);
        }
        text::lemma_trimmed_end_of(head, w3);
        assert(head.skip(1) == w0 + inner + none);
        assert(inner.last() == head.last());
        if eqs.len() > 0 {
            assert(inner[0] == eqs[0]);
        } else {
            assert(inner[0] == value[0]);
        }
        text::trimming_leaves_the_core(w0, inner, none);
        let core = w2 + value;
        if core.len() > 0 {
            if w2.len() > 0 {
                assert(core[0] == w2[0]);
            } else {
                assert(core[0] == value[0]);
            }
        }
        assert(inner == eqs + core);
        text::stripping_leaves_the_core(eqs, core, '=');
        if value.len() > 0 {
            assert(core == w2 + value + none);
            text::trimming_leaves_the_core(w2, value, none);
        } else {
            assert(core == none);
            assert(text::trimmed(none) == none);
        }
    } else {
        let blanks = w0 + w3;
        assert(follows == sep + blanks);
        assert(text::blank(blanks)) by {
            assert forall|i: int| 0 <= i < blanks.len() implies text::whitespace(
                #[trigger] blanks[i],
            ) by {
                if i < w0.len() {
                    assert(blanks[i] == w0[i]);
                } else {
                    assert(blanks[i] == w3[i - w0.len()]);
                }
            }
        }
        if text::whitespace(sep[0]) {
            assert forall|i: int| 0 <= i < follows.len() implies text::whitespace(
                #[trigger] follows[i],
            ) by {
                if i > 0 {
                    assert(follows[i] == blanks[i - 1]);
                }
            }
        }
        text::lemma_trimmed_end_of(sep, blanks);
        assert(sep.skip(1) == none);
        assert(text::trimmed(none) == none);
        assert(text::without_leading(none, '=') == none);
        assert(value == none);
    }
}

/// Whether a pattern of an `Include` line names the directory `dir`: what precedes
/// its last `/`, or all of it if it has none, is `dir`, but for slashes at the end
/// of either.
pub open spec fn names_dir(pattern: Seq<char>, dir: Seq<char>) -> bool {
    ||| !pattern.contains('/') && same_up_to_slashes(pattern, dir)
    ||| exists|n: int|
        0 <= n < pattern.len() && #[trigger] pattern[n] == '/' && !pattern.skip(n + 1).contains('/')
            && same_up_to_slashes(pattern.take(n), dir)
}

/// Whether two paths are the same but for slashes at their ends.
pub open spec fn same_up_to_slashes(a: Seq<char>, b: Seq<char>) -> bool {
    exists|n: int|
        0 <= n <= a.len() && n <= b.len() && a.take(n) == b.take(n) && (n == 0 || a[n - 1] != '/')
            && #[trigger] only_slashes_from(a, n) && only_slashes_from(b, n)
}

/// Whether nothing but slashes stands from `n` on.
pub open spec fn only_slashes_from(s: Seq<char>, n: int) -> bool {
    forall|i: int| n <= i < s.len() ==> #[trigger] s[i] == '/'
}

/// The configuration is searched line by line, and it includes a directory if and
/// only if one of its lines does: one that is no comment, whose first word is
/// `Include`, in any case, and one of whose further words names the directory.
pub proof fn includes_are_found_line_by_line(
    config: &str,
    line: Seq<char>,
    ending: Seq<char>,
    rest: &str,
    left: Seq<char>,
    keyword: Seq<char>,
    follows: Seq<char>,
    dir: &str,
    r: bool,
    rest_r: bool,
)
    requires
        config@ == line + ending + rest@,
        !line.contains('\n'),
        ending == seq!['\r', '\n'] || ending == seq!['\n'] && (line.len() > 0 ==> line.last()
            != '\r'),
        line == left + keyword + follows,
        text::blank(left),
        forall|i: int| 0 <= i < keyword.len() ==> !text::whitespace(#[trigger] keyword[i]),
        follows.len() == 0 || text::whitespace(follows[0]),
        keyword.len() == 0 ==> follows.len() == 0,
        call_ensures(includes_dropin_dir, (config, dir), r),
        call_ensures(includes_dropin_dir, (rest, dir), rest_r),
    ensures
        r <==> rest_r || (text::same_up_to_case(keyword, "Include"@) && exists|j: int|
            0 <= j < text::words(follows).len() && names_dir(
                #[trigger] text::words(follows)[j],
                dir@,
            )),
{
    text::lines_are_separated_by_line_endings(line, ending, rest@);
    lemma_some_line_includes(line, text::lines(rest@), dir@);
    lemma_include_line(line, left, keyword, follows, dir@);
}

/// An empty configuration includes nothing and gives nothing a value, and the last
/// line of a configuration needs no line ending.
pub proof fn last_line_of_a_config_needs_no_line_ending(
    config: &str,
    ended: &str,
    dir: &str,
    found: (Option<String>, Option<String>),
    included: (bool, bool),
)
    requires
        !config@.contains('\n'),
        config@.len() > 0 ==> config@.last() != '\r',
        ended@ == config@.push('\n'),
        call_ensures(find_trusted_user_ca_keys, (config,), found.0),
        call_ensures(find_trusted_user_ca_keys, (ended,), found.1),
        call_ensures(includes_dropin_dir, (config, dir), included.0),
        call_ensures(includes_dropin_dir, (ended, dir), included.1),
    ensures
        value_text(found.0) == value_text(found.1),
        included.0 == included.1,
        config@.len() == 0 ==> found.0 is None && !included.0,
{
    let none = Seq::<char>::empty();
    text::text_without_newline_is_one_line(config@);
    text::text_without_newline_is_one_line(none);
    assert(ended@ == config@ + seq!['\n'] + none);
    text::lines_are_separated_by_line_endings(config@, seq!['\n'], none);
    let nothing = Seq::<Seq<char>>::empty();
    assert(seq![config@] + nothing == seq![config@]);
    assert(text::lines(ended@) == seq![config@]);
    if config@.len() == 0 {
        lemma_some_line_includes(config@, nothing, dir@);
        assert(seq![config@].skip(1) == nothing);
        assert(text::blank(config@));
        text::only_blank_text_trims_to_nothing(config@);
        assert(first_value(nothing) is None);
    }
}

/// What an optional string says.
pub open spec fn value_text(r: Option<String>) -> Option<Seq<char>> {
    match r {
        Some(v) => Some(v@),
        None => None,
    }
}

/// What [`include_patterns`] makes of a line.
proof fn lemma_include_line(
    line: Seq<char>,
    left: Seq<char>,
    keyword: Seq<char>,
    follows: Seq<char>,
    dir: Seq<char>,
)
    requires
        line == left + keyword + follows,
        text::blank(left),
        forall|i: int| 0 <= i < keyword.len() ==> !text::whitespace(#[trigger] keyword[i]),
        follows.len() == 0 || text::whitespace(follows[0]),
        keyword.len() == 0 ==> follows.len() == 0,
    ensures
        some_references(include_patterns(line), dir) <==> text::same_up_to_case(
            keyword,
            "Include"@,
        ) && exists|j: int|
            0 <= j < text::words(follows).len() && names_dir(
                #[trigger] text::words(follows)[j],
                dir,
            ),
{
    reveal_strlit("Include");
    let none = Seq::<char>::empty();
    text::lemma_same_up_to_case(keyword, "Include"@);
    assert forall|p: Seq<char>| #[trigger] references(p, dir) == names_dir(p, dir) by {
        lemma_references(p, dir);
    }
    if keyword.len() == 0 {
        assert(line == left);
        text::only_blank_text_trims_to_nothing(line);
    } else {
        let entry = text::trimmed(line);
        let tail = text::trimmed_end(follows);
        let right = follows.skip(tail.len() as int);
        text::lemma_trimmed_end(follows);
        assert(follows == tail + right);
        assert(text::blank(right)) by {
            assert forall|i: int| 0 <= i < right.len() implies text::whitespace(
                #[trigger] right[i],
            ) by {
                assert(right[i] == follows[tail.len() + i]);
            }
        }
        let core = keyword + tail;
        assert(line == left + core + right);
        assert(core[0] == keyword[0]);
        if tail.len() > 0 {
            assert(core.last() == tail.last());
            assert(tail[0] == follows[0]);
        } else {
            assert(core.last() == keyword.last());
        }
        text::trimming_leaves_the_core(left, core, right);
        assert(entry == core);
        text::words_are_separated_by_whitespace(none, keyword, tail);
        lemma_words_of_trimmed(follows);
        if text::same_ignoring_case(keyword, "Include"@) {
            assert(text::ascii_lower(keyword[0]) == text::ascii_lower("Include"@[0]));
            assert(entry[0] != '#');
        }
        if !ignored_line(line) && text::same_ignoring_case(keyword, "Include"@) {
            assert(include_patterns(line) == text::words(follows));
            let patterns = text::words(follows);
            if some_references(patterns, dir) {
                let j = choose|j: int|
                    0 <= j < patterns.len() && references(#[trigger] patterns[j], dir);
                assert(names_dir(patterns[j], dir));
            }
            if exists|j: int| 0 <= j < patterns.len() && names_dir(#[trigger] patterns[j], dir) {
                let j = choose|j: int|
                    0 <= j < patterns.len() && names_dir(#[trigger] patterns[j], dir);
                assert(references(patterns[j], dir));
            }
        } else {
            assert(include_patterns(line) == Seq::<Seq<char>>::empty());
        }
    }
}

/// A part of a text that is all whitespace there is blank.
proof fn lemma_blank_part(s: Seq<char>, part: Seq<char>, from: int)
    requires
        0 <= from <= from + part.len() <= s.len(),
        part == s.subrange(from, from + part.len()),
        forall|i: int| from <= i < from + part.len() ==> text::whitespace(#[trigger] s[i]),
    ensures
        text::blank(part),
{
    assert forall|i: int| 0 <= i < part.len() implies text::whitespace(#[trigger] part[i]) by {
        assert(part[i] == s[from + i]);
    }
}

/// What stands before the first word of a text, that word, and what follows it.
proof fn lemma_split_at_word(s: Seq<char>) -> (parts: (Seq<char>, Seq<char>, Seq<char>))
    requires
        text::trimmed_start(s).len() > 0,
    ensures
        s == parts.0 + parts.1 + parts.2,
        text::blank(parts.0),
        parts.1.len() > 0,
        forall|i: int| 0 <= i < parts.1.len() ==> !text::whitespace(#[trigger] parts.1[i]),
        parts.2.len() == 0 || text::whitespace(parts.2[0]),
{
    text::lemma_trimmed_start(s);
    let core = text::trimmed_start(s);
    let left = s.take(s.len() - core.len());
    lemma_blank_part(s, left, 0);
    text::lemma_word_len(core);
    let word = text::first_word(core);
    let rest = text::after_word(core);
    assert(core == word + rest);
    assert(s == left + core);
    assert(s == left + word + rest);
    assert forall|i: int| 0 <= i < word.len() implies !text::whitespace(#[trigger] word[i]) by {
        assert(word[i] == core[i]);
    }
    if rest.len() > 0 {
        assert(rest[0] == core[text::word_len(core) as int]);
    }
    (left, word, rest)
}

/// Trimming a text at its end is trimming what follows one of its words.
proof fn lemma_trimmed_behind_word(left: Seq<char>, word: Seq<char>, rest: Seq<char>)
    requires
        word.len() > 0,
        forall|i: int| 0 <= i < word.len() ==> !text::whitespace(#[trigger] word[i]),
    ensures
        text::trimmed_end(left + word + rest) == left + word + text::trimmed_end(rest),
{
    let short = text::trimmed_end(rest);
    text::lemma_trimmed_end(rest);
    let right = rest.skip(short.len() as int);
    lemma_blank_part(rest, right, short.len() as int);
    let whole = left + word + short;
    assert(left + word + rest == whole + right);
    if short.len() > 0 {
        assert(whole.last() == short.last());
    } else {
        assert(whole.last() == word[word.len() - 1]);
    }
    text::lemma_trimmed_end_of(whole, right);
}

/// Whitespace at the end does not matter to the words of a text.
proof fn lemma_words_of_trimmed(s: Seq<char>)
    ensures
        text::words(text::trimmed_end(s)) == text::words(s),
    decreases s.len(),
{
    text::lemma_trimmed_end(s);
    if text::trimmed_start(s).len() == 0 {
        text::lemma_trimmed_start(s);
        lemma_blank_part(s, s.subrange(0, s.len() as int), 0);
        assert(s.subrange(0, s.len() as int) == s);
        lemma_blank_part(s, text::trimmed_end(s), 0);
        text::blank_text_has_no_words(s);
        text::blank_text_has_no_words(text::trimmed_end(s));
    } else {
        let (left, word, rest) = lemma_split_at_word(s);
        let short = text::trimmed_end(rest);
        text::lemma_trimmed_end(rest);
        if short.len() > 0 {
            assert(short[0] == rest[0]);
        }
        lemma_trimmed_behind_word(left, word, rest);
        text::words_are_separated_by_whitespace(left, word, rest);
        text::words_are_separated_by_whitespace(left, word, short);
        lemma_words_of_trimmed(rest);
    }
}

/// [`references`] is [`names_dir`].
proof fn lemma_references(pattern: Seq<char>, dir: Seq<char>)
    ensures
        references(pattern, dir) <==> names_dir(pattern, dir),
{
    lemma_before_last_slash(pattern);
    match before_last_slash(pattern) {
        Some(d) => {
            let n = d.len() as int;
            lemma_same_up_to_slashes(d, dir);
            assert(pattern.contains(pattern[n]));
            if references(pattern, dir) {
                assert(pattern.take(n) == d);
                assert(names_dir(pattern, dir));
            }
            if names_dir(pattern, dir) {
                let m = choose|m: int|
                    0 <= m < pattern.len() && #[trigger] pattern[m] == '/' && !pattern.skip(
                        m + 1,
                    ).contains('/') && same_up_to_slashes(pattern.take(m), dir);
                if m < n {
                    assert(pattern.skip(m + 1)[n - m - 1] == '/');
                }
                if n < m {
                    assert(pattern.skip(n + 1)[m - n - 1] == '/');
                }
            }
        },
        None => {
            lemma_same_up_to_slashes(pattern, dir);
            if names_dir(pattern, dir) && pattern.contains('/') {
                assert(false);
            }
        },
    }
}

/// What precedes the last slash of a text.
proof fn lemma_before_last_slash(s: Seq<char>)
    ensures
        match before_last_slash(s) {
            Some(d) => d.len() < s.len() && d == s.take(d.len() as int) && s[d.len() as int] == '/'
                && !s.skip(d.len() as int + 1).contains('/'),
            None => !s.contains('/'),
        },
    decreases s.len(),
{
    if s.len() > 0 {
        let front = s.drop_last();
        lemma_before_last_slash(front);
        if s.last() == '/' {
            assert(s.take(front.len() as int) == front);
            assert(s.skip(front.len() as int + 1) == Seq::<char>::empty());
        } else {
            match before_last_slash(front) {
                Some(d) => {
                    let n = d.len() as int;
                    assert(s.take(n) == front.take(n));
                    let after = s.skip(n + 1);
                    if after.contains('/') {
                        let i = choose|i: int| 0 <= i < after.len() && after[i] == '/';
                        assert(after[i] == s[n + 1 + i]);
                        assert(front.skip(n + 1)[i] == '/');
                    }
                },
                None => {
                    if s.contains('/') {
                        let i = choose|i: int| 0 <= i < s.len() && s[i] == '/';
                        assert(front[i] == '/');
                    }
                },
            }
        }
    }
}

/// Being the same without trailing slashes is [`same_up_to_slashes`].
proof fn lemma_same_up_to_slashes(a: Seq<char>, b: Seq<char>)
    ensures
        text::without_trailing(a, '/') == text::without_trailing(b, '/') <==> same_up_to_slashes(
            a,
            b,
        ),
{
    let x = text::without_trailing(a, '/');
    let y = text::without_trailing(b, '/');
    text::stripped_text_does_not_end_in_the_stripped(a, '/');
    text::stripped_text_does_not_end_in_the_stripped(b, '/');
    if x == y {
        let n = x.len() as int;
        assert(a.take(n) == x);
        assert(b.take(n) == y);
        if n > 0 {
            assert(a[n - 1] == x.last());
        }
        assert(only_slashes_from(a, n));
        assert(only_slashes_from(b, n));
    }
    if same_up_to_slashes(a, b) {
        let n = choose|n: int|
            0 <= n <= a.len() && n <= b.len() && a.take(n) == b.take(n) && (n == 0 || a[n - 1]
                != '/') && #[trigger] only_slashes_from(a, n) && only_slashes_from(b, n);
        let core = a.take(n);
        if n > 0 {
            assert(core.last() == a[n - 1]);
        }
        text::stripping_leaves_the_core(a.skip(n), core, '/');
        text::stripping_leaves_the_core(b.skip(n), core, '/');
        assert(a == core + a.skip(n));
        assert(b == core + b.skip(n));
    }
}

/// A text that is the drop-in for a path, whitespace at its end aside, configures
/// exactly that path.
pub proof fn current_text_configures_its_path(
    installed: Seq<char>,
    path: Seq<char>,
    config: &str,
    value: Option<String>,
)
    requires
        plain_path(path),
        text::trimmed_end(installed) == text::trimmed_end(dropin(path)),
        config@ == installed,
        call_ensures(find_trusted_user_ca_keys, (config,), value),
    ensures
        value matches Some(v) && v@ == path,
{
    lemma_current_text(installed, path);
}

proof fn lemma_current_text(installed: Seq<char>, path: Seq<char>)
    requires
        plain_path(path),
        text::trimmed_end(installed) == text::trimmed_end(dropin(path)),
    ensures
        first_value(text::lines(installed)) == Some(path),
{
    lemma_banner_lines();
    lemma_directive(path);
    let line = directive(path);
    let b1 = banner_first();
    let b2 = banner_second();
    let nl = seq!['\n'];
    let core = b1 + nl + b2 + nl + line;
    assert(dropin(path) == core + nl) by {
        reveal_strlit("\n");
        assert("\n"@ == nl);
    }
    assert(core.last() == line.last());
    assert(text::blank(nl));
    text::lemma_trimmed_end_of(core, nl);
    text::lemma_trimmed_end(installed);
    let right = installed.skip(core.len() as int);
    assert(installed == core + right);
    assert(text::blank(right)) by {
        assert forall|i: int| 0 <= i < right.len() implies text::whitespace(#[trigger] right[i]) by {
            assert(right[i] == installed[core.len() + i]);
        }
    }
    let last = line + right;
    let second = b2 + nl + last;
    assert(installed == b1 + nl + second);
    text::lines_are_separated_by_line_endings(b1, nl, second);
    text::lines_are_separated_by_line_endings(b2, nl, last);
    lemma_directive_and_blanks(path, right);
    let all = text::lines(installed);
    let l2 = seq![b2] + text::lines(last);
    assert(all == seq![b1] + l2);
    assert(all.skip(1) == l2);
    assert(l2.skip(1) == text::lines(last));
    assert(first_value(all) == first_value(l2));
}

/// A directive neither begins nor ends with whitespace and stands on one line.
proof fn lemma_directive(path: Seq<char>)
    requires
        plain_path(path),
    ensures
        directive(path).len() > 0,
        directive(path)[0] == 'T',
        directive(path).last() == path.last(),
        !text::whitespace(path.last()),
        forall|i: int| 0 <= i < directive(path).len() ==> #[trigger] directive(path)[i] != '\n',
{
    reveal_strlit("TrustedUserCAKeys");
    text::lemma_space();
    text::lemma_trimmed(path);
    let line = directive(path);
    assert forall|i: int| 0 <= i < line.len() implies #[trigger] line[i] != '\n' by {
        if i < 17 {
            assert(line[i] == "TrustedUserCAKeys"@[i]);
        } else if i > 17 {
            assert(line[i] == path[i - 18]);
            assert(path.contains(path[i - 18]));
        }
    }
}

/// A directive with whitespace behind it, line endings among it, gives its value.
proof fn lemma_directive_and_blanks(path: Seq<char>, right: Seq<char>)
    requires
        plain_path(path),
        text::blank(right),
    ensures
        first_value(text::lines(directive(path) + right)) == Some(path),
{
    lemma_directive(path);
    lemma_value_of_directive(path);
    lemma_without_leading(path, '=');
    let line = directive(path);
    let last = line + right;
    text::lemma_lines_unfold(last);
    text::lemma_line_len(last);
    let third = text::first_line(last);
    let n = text::line_len(last) as int;
    if n < line.len() {
        assert(last[n] == line[n]);
    }
    assert(third.len() >= line.len()) by {
        if n < last.len() && n == line.len() {
            assert(last.take(n).last() == line.last());
            assert(text::whitespace('\r'));
        }
    }
    let blanks = third.skip(line.len() as int);
    assert(third == line + blanks) by {
        assert forall|i: int| 0 <= i < line.len() implies #[trigger] third[i] == line[i] by {
            assert(last[i] == line[i]);
        }
    }
    assert(text::blank(blanks)) by {
        assert forall|i: int| 0 <= i < blanks.len() implies text::whitespace(
            #[trigger] blanks[i],
        ) by {
            assert(blanks[i] == last[line.len() + i]);
            assert(last[line.len() + i] == right[i]);
        }
    }
    let none = Seq::<char>::empty();
    assert(third == none + line + blanks);
    text::trimming_leaves_the_core(none, line, blanks);
    text::lemma_already_trimmed(line);
    assert(directive_value(third) == directive_value(line));
}

} // verus!
