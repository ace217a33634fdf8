//! Parsing and validation of the `TrustedUserCAKeys` file.
//!
//! The file is an OpenSSH `authorized_keys`-style list: one CA public key per
//! line, blank lines and `#` comment lines ignored. Each key is
//! `"<algorithm> <base64-blob> [comment]"`.
//!
//! Validation here is **structural and conservative** — it
//! decides whether content is well-formed enough to be considered at all. It
//! looks for illegal characters, an allow-listed algorithm, and a
//! syntactically valid base64 blob. It does not perform cryptographic
//! verification of the key material; rejecting obvious garbage before writing a
//! file that governs SSH trust is a defence-in-depth measure.
//!
//! Parsing and rendering are inverse on everything that parses:
//! [`key_render_round_trips`] and [`file_render_round_trips`].

use vstd::prelude::*;

use crate::errors::{Error, TrustedCaError};
use crate::text;

verus! {

// ---------------------------------------------------------------------------
// Model
// ---------------------------------------------------------------------------

/// What a CA public key line says.
#[verifier::ext_equal]
pub struct CaKey {
    /// The key algorithm.
    pub algorithm: Seq<char>,
    /// The base64 blob.
    pub key_data: Seq<char>,
    /// The trailing comment, if there is one.
    pub comment: Option<Seq<char>>,
}

/// Algorithms permitted for a trusted CA key.
///
/// Restricted to modern, widely-supported SSH CA key types. `ssh-dss` (DSA) is
/// intentionally excluded.
pub open spec fn allowed_algorithm(s: Seq<char>) -> bool {
    ||| s == "ssh-ed25519"@
    ||| s == "ssh-rsa"@
    ||| s == "rsa-sha2-256"@
    ||| s == "rsa-sha2-512"@
    ||| s == "ecdsa-sha2-nistp256"@
    ||| s == "ecdsa-sha2-nistp384"@
    ||| s == "ecdsa-sha2-nistp521"@
    ||| s == "sk-ssh-ed25519@openssh.com"@
    ||| s == "sk-ecdsa-sha2-nistp256@openssh.com"@
}

/// The 64 characters of the standard base64 alphabet.
pub open spec fn base64_char(c: char) -> bool {
    ||| 'A' <= c && c <= 'Z'
    ||| 'a' <= c && c <= 'z'
    ||| '0' <= c && c <= '9'
    ||| c == '+'
    ||| c == '/'
}

/// `s` is alphabet characters followed by `padding` padding characters.
pub open spec fn base64_with_padding(s: Seq<char>, padding: int) -> bool {
    &&& 0 <= padding < s.len()
    &&& forall|i: int| 0 <= i < s.len() - padding ==> base64_char(#[trigger] s[i])
    &&& forall|i: int| s.len() - padding <= i < s.len() ==> #[trigger] s[i] == '='
}

/// Syntactically valid standard base64: a non-empty multiple of four characters,
/// of which at most the last two are padding.
pub open spec fn valid_base64(s: Seq<char>) -> bool {
    &&& s.len() % 4 == 0
    &&& exists|padding: int| 0 <= padding <= 2 && #[trigger] base64_with_padding(s, padding)
}

/// Whether some character of `s` is a control code.
pub open spec fn has_control(s: Seq<char>) -> bool {
    exists|i: int| 0 <= i < s.len() && text::control(#[trigger] s[i])
}

/// What parsing one key line yields: the first two whitespace-delimited fields
/// are the algorithm and the base64 blob; anything after them is a free-form
/// comment.
pub open spec fn parsed_key(line: Seq<char>) -> Result<CaKey, TrustedCaError> {
    let entry = text::trimmed(line);
    let algorithm = text::first_word(entry);
    let rest = text::trimmed_start(text::after_word(entry));
    let key_data = text::first_word(rest);
    let comment = text::trimmed(text::after_word(rest));
    if has_control(line) {
        Err(TrustedCaError::IllegalCharacter)
    } else if entry.len() == 0 {
        Err(TrustedCaError::Empty)
    } else if rest.len() == 0 {
        Err(TrustedCaError::Malformed)
    } else if !allowed_algorithm(algorithm) {
        Err(TrustedCaError::DisallowedAlgorithm)
    } else if !valid_base64(key_data) {
        Err(TrustedCaError::InvalidEncoding)
    } else {
        Ok(
            CaKey {
                algorithm,
                key_data,
                comment: if comment.len() == 0 {
                    None
                } else {
                    Some(comment)
                },
            },
        )
    }
}

/// The canonical line of a key, without a line ending.
pub open spec fn rendered_key(key: CaKey) -> Seq<char> {
    let base = key.algorithm + " "@ + key.key_data;
    match key.comment {
        Some(comment) => base + " "@ + comment,
        None => base,
    }
}

/// A line that holds no key: blank, or a `#` comment.
pub open spec fn ignored_line(line: Seq<char>) -> bool {
    text::trimmed(line).len() == 0 || text::trimmed(line)[0] == '#'
}

/// The keys of a list of lines, in order, or why the first bad one is rejected.
pub open spec fn parsed_lines(lines: Seq<Seq<char>>) -> Result<Seq<CaKey>, TrustedCaError>
    decreases lines.len(),
{
    if lines.len() == 0 {
        Ok(Seq::empty())
    } else if ignored_line(lines[0]) {
        parsed_lines(lines.skip(1))
    } else {
        match parsed_key(lines[0]) {
            Err(e) => Err(e),
            Ok(key) => match parsed_lines(lines.skip(1)) {
                Err(e) => Err(e),
                Ok(keys) => Ok(seq![key] + keys),
            },
        }
    }
}

/// What parsing a whole file yields.
pub open spec fn parsed_file(contents: Seq<char>) -> Result<Seq<CaKey>, TrustedCaError> {
    parsed_lines(text::lines(contents))
}

/// The canonical file: every key's line, each with a line ending.
pub open spec fn rendered_file(keys: Seq<CaKey>) -> Seq<char>
    decreases keys.len(),
{
    if keys.len() == 0 {
        Seq::empty()
    } else {
        rendered_key(keys[0]).push('\n') + rendered_file(keys.skip(1))
    }
}

// ---------------------------------------------------------------------------
// Single keys
// ---------------------------------------------------------------------------

/// A single trusted CA public key.
#[derive(Debug, Clone, PartialEq, Eq)]
pub struct CaPublicKey {
    algorithm: String,
    key_data: String,
    comment: Option<String>,
}

impl View for CaPublicKey {
    type V = CaKey;

    closed spec fn view(&self) -> CaKey {
        CaKey {
            algorithm: self.algorithm@,
            key_data: self.key_data@,
            comment: match self.comment {
                Some(c) => Some(c@),
                None => None,
            },
        }
    }
}

impl CaPublicKey {
    /// The key algorithm (e.g. `ssh-ed25519`).
    pub fn algorithm(&self) -> (r: &str)
        ensures
            r@ == self@.algorithm,
    {
        self.algorithm.as_str()
    }

    /// The base64-encoded key blob.
    pub fn key_data(&self) -> (r: &str)
        ensures
            r@ == self@.key_data,
    {
        self.key_data.as_str()
    }

    /// The optional trailing comment.
    pub fn comment(&self) -> (r: Option<&str>)
        ensures
            match r {
                Some(c) => self@.comment == Some(c@),
                None => self@.comment is None,
            },
    {
        match &self.comment {
            Some(c) => Some(c.as_str()),
            None => None,
        }
    }

    /// Parse and validate a single non-empty key line.
    ///
    /// # Errors
    ///
    /// Returns a [`TrustedCaError`] describing why the entry is rejected.
    pub fn parse(line: &str) -> (r: Result<Self, TrustedCaError>)
        ensures
            match parsed_key(line@) {
                Ok(key) => r matches Ok(k) && k@ == key,
                Err(e) => r == Err::<Self, TrustedCaError>(e),
            },
    {
        let chars = text::to_chars(line);
        Self::parse_chars(chars.as_slice())
    }

    /// [`Self::parse`] on characters.
    fn parse_chars(line: &[char]) -> (r: Result<Self, TrustedCaError>)
        ensures
            match parsed_key(line@) {
                Ok(key) => r matches Ok(k) && k@ == key,
                Err(e) => r == Err::<Self, TrustedCaError>(e),
            },
    {
        if contains_control(line) {
            return Err(TrustedCaError::IllegalCharacter);
        }
        let entry = text::trim(line);
        if entry.len() == 0 {
            return Err(TrustedCaError::Empty);
        }
        let (algorithm, after_algorithm) = text::split_word(entry);
        let rest = text::trim_start(after_algorithm);
        if rest.len() == 0 {
            return Err(TrustedCaError::Malformed);
        }
        let (key_data, after_key) = text::split_word(rest);
        if !is_allowed_algorithm(algorithm) {
            return Err(TrustedCaError::DisallowedAlgorithm);
        }
        if !is_base64(key_data) {
            return Err(TrustedCaError::InvalidEncoding);
        }
        let comment = text::trim(after_key);
        Ok(
            CaPublicKey {
                algorithm: text::from_chars(algorithm),
                key_data: text::from_chars(key_data),
                comment: if comment.len() == 0 {
                    None
                } else {
                    Some(text::from_chars(comment))
                },
            },
        )
    }

    /// Render this key as a canonical single line (no trailing newline).
    pub fn render(&self) -> (r: String)
        ensures
            r@ == rendered_key(self@),
    {
        let mut out = self.algorithm.clone();
        out.append(" ");
        out.append(self.key_data.as_str());
        if let Some(comment) = &self.comment {
            out.append(" ");
            out.append(comment.as_str());
        }
        out
    }
}

/// Whether some character is a control code.
fn contains_control(s: &[char]) -> (r: bool)
    ensures
        r == has_control(s@),
{
    let mut i: usize = 0;
    while i < s.len()
        invariant
            i <= s@.len(),
            forall|j: int| 0 <= j < i ==> !text::control(#[trigger] s@[j]),
        decreases s@.len() - i,
    {
        if text::is_control(s[i]) {
            return true;
        }
        i += 1;
    }
    false
}

/// Whether `s` names an allow-listed algorithm.
pub fn is_allowed_algorithm(s: &[char]) -> (r: bool)
    ensures
        r == allowed_algorithm(s@),
{
    text::is_literal(s, "ssh-ed25519") || text::is_literal(s, "ssh-rsa") || text::is_literal(
        s,
        "rsa-sha2-256",
    ) || text::is_literal(s, "rsa-sha2-512") || text::is_literal(s, "ecdsa-sha2-nistp256")
        || text::is_literal(s, "ecdsa-sha2-nistp384") || text::is_literal(s, "ecdsa-sha2-nistp521")
        || text::is_literal(s, "sk-ssh-ed25519@openssh.com") || text::is_literal(
        s,
        "sk-ecdsa-sha2-nistp256@openssh.com",
    )
}

/// Validate that `s` is syntactically valid standard base64 (RFC 4648, no URL
/// alphabet), non-empty, correctly padded, and length a multiple of four.
pub fn is_valid_base64(s: &str) -> (r: bool)
    ensures
        r == valid_base64(s@),
{
    let chars = text::to_chars(s);
    is_base64(chars.as_slice())
}

/// [`is_valid_base64`] on characters.
fn is_base64(s: &[char]) -> (r: bool)
    ensures
        r == valid_base64(s@),
{
    let n: usize = s.len();
    if n == 0 || n % 4 != 0 {
        assert(!exists|padding: int| 0 <= padding <= 2 && #[trigger] base64_with_padding(s@, padding)
            && s@.len() % 4 == 0);
        return false;
    }
    let mut padding: usize = 0;
    while padding < n && s[n - 1 - padding] == '='
        invariant
            n == s@.len(),
            padding <= n,
            forall|i: int| n - padding <= i < n ==> #[trigger] s@[i] == '=',
        decreases n - padding,
    {
        padding += 1;
    }
    if padding > 2 {
        assert forall|p: int| 0 <= p <= 2 implies !#[trigger] base64_with_padding(s@, p) by {
            assert(s@[n - 3] == '=');
        }
        return false;
    }
    let body: usize = n - padding;
    let mut i: usize = 0;
    while i < body
        invariant
            n == s@.len(),
            n >= 4,
            padding <= 2,
            body == n - padding,
            i <= body,
            forall|j: int| 0 <= j < i ==> base64_char(#[trigger] s@[j]),
            forall|j: int| body <= j < n ==> #[trigger] s@[j] == '=',
            s@[body - 1] != '=',
        decreases body - i,
    {
        if !is_base64_char(s[i]) {
            assert forall|p: int| 0 <= p <= 2 implies !#[trigger] base64_with_padding(s@, p) by {
                if base64_with_padding(s@, p) {
                    if p > padding {
                        assert(s@[body - 1] == '=');
                    }
                    assert(base64_char(s@[i as int]));
                }
            }
            return false;
        }
        i += 1;
    }
    assert(base64_with_padding(s@, padding as int));
    true
}

/// Whether `c` is in the standard base64 alphabet.
fn is_base64_char(c: char) -> (r: bool)
    ensures
        r == base64_char(c),
{
    ('A' <= c && c <= 'Z') || ('a' <= c && c <= 'z') || ('0' <= c && c <= '9') || c == '+' || c
        == '/'
}

// ---------------------------------------------------------------------------
// Key lists
// ---------------------------------------------------------------------------

/// The validated contents of a `TrustedUserCAKeys` file.
#[derive(Debug, Clone, PartialEq, Eq)]
pub struct TrustedCaKeys {
    keys: Vec<CaPublicKey>,
}

/// What each key of a list says.
pub open spec fn views(keys: Seq<CaPublicKey>) -> Seq<CaKey> {
    keys.map_values(|k: CaPublicKey| k@)
}

impl View for TrustedCaKeys {
    type V = Seq<CaKey>;

    closed spec fn view(&self) -> Seq<CaKey> {
        views(self.keys@)
    }
}

impl Default for TrustedCaKeys {
    /// No keys.
    fn default() -> (r: Self)
        ensures
            r@ == Seq::<CaKey>::empty(),
    {
        TrustedCaKeys { keys: Vec::new() }
    }
}

impl TrustedCaKeys {
    /// Parse and validate the full contents of a trusted-CA file.
    ///
    /// Blank lines and `#` comment lines are ignored. Every remaining line must
    /// be a valid CA key.
    ///
    /// # Errors
    ///
    /// Returns [`Error::InvalidTrustedCa`] for the first invalid entry.
    pub fn parse(contents: &str) -> (r: Result<Self, Error>)
        ensures
            match parsed_file(contents@) {
                Ok(keys) => r matches Ok(k) && k@ == keys,
                Err(e) => r == Err::<Self, Error>(Error::InvalidTrustedCa(e)),
            },
    {
        let chars = text::to_chars(contents);
        let mut rest = chars.as_slice();
        let mut keys: Vec<CaPublicKey> = Vec::new();
        assert(views(keys@) == Seq::<CaKey>::empty());
        while rest.len() > 0
            invariant
                match parsed_lines(text::lines(rest@)) {
                    Ok(more) => parsed_file(contents@) == Ok::<Seq<CaKey>, TrustedCaError>(
                        views(keys@) + more,
                    ),
                    Err(e) => parsed_file(contents@) == Err::<Seq<CaKey>, TrustedCaError>(e),
                },
            decreases rest@.len(),
        {
            let (line, tail) = text::split_line(rest);
            proof {
                text::lemma_lines_unfold(rest@);
                assert((seq![line@] + text::lines(tail@)).skip(1) == text::lines(tail@));
            }
            let entry = text::trim(line);
            if entry.len() > 0 && entry[0] != '#' {
                match CaPublicKey::parse_chars(line) {
                    Err(e) => {
                        return Err(Error::InvalidTrustedCa(e));
                    },
                    Ok(key) => {
                        let ghost before = keys@;
                        keys.push(key);
                        proof {
                            if let Ok(more) = parsed_lines(text::lines(tail@)) {
                                assert(views(keys@) + more == views(before) + (seq![key@] + more));
                            }
                        }
                    },
                }
            }
            rest = tail;
        }
        assert(views(keys@) + Seq::<CaKey>::empty() == views(keys@));
        Ok(TrustedCaKeys { keys })
    }

    /// The parsed keys, in file order.
    pub fn keys(&self) -> (r: &[CaPublicKey])
        ensures
            views(r@) == self@,
    {
        self.keys.as_slice()
    }

    /// The number of keys.
    pub fn len(&self) -> (r: usize)
        ensures
            r == self@.len(),
    {
        self.keys.len()
    }

    /// Whether there are no keys.
    pub fn is_empty(&self) -> (r: bool)
        ensures
            r == (self@.len() == 0),
    {
        self.keys.len() == 0
    }

    /// Render all keys to canonical file contents, one per line, with a trailing
    /// newline (empty string if there are no keys).
    pub fn render(&self) -> (r: String)
        ensures
            r@ == rendered_file(self@),
    {
        let mut out = String::new();
        let mut i: usize = 0;
        assert(self@.skip(0) == self@);
        while i < self.keys.len()
            invariant
                i <= self.keys@.len(),
                self@.len() == self.keys@.len(),
                out@ + rendered_file(self@.skip(i as int)) == rendered_file(self@),
            decreases self.keys@.len() - i,
        {
            let line = self.keys[i].render();
            let ghost before = out@;
            out.append(line.as_str());
            out.push('\n');
            proof {
                let rest = self@.skip(i as int);
                assert(rest[0] == self.keys@[i as int]@);
                assert(rest.skip(1) == self@.skip(i + 1));
                assert(before + (line@.push('\n') + rendered_file(rest.skip(1))) == out@
                    + rendered_file(rest.skip(1)));
            }
            i += 1;
        }
        assert(out@ + Seq::<char>::empty() == out@);
        out
    }
}

// ---------------------------------------------------------------------------
// Laws
// ---------------------------------------------------------------------------

/// Every key that parsing yields has this shape: it has no control characters,
/// an allow-listed algorithm and a valid blob that are single words, and a
/// comment, if any, without surrounding whitespace.
pub open spec fn canonical(key: CaKey) -> bool {
    &&& allowed_algorithm(key.algorithm)
    &&& valid_base64(key.key_data)
    &&& !has_control(key.algorithm)
    &&& !has_control(key.key_data)
    &&& is_word(key.algorithm)
    &&& is_word(key.key_data)
    &&& key.comment matches Some(c) ==> {
        &&& !has_control(c)
        &&& c.len() > 0
        &&& !text::whitespace(c[0])
        &&& !text::whitespace(c.last())
    }
}

/// Non-empty and free of whitespace.
pub open spec fn is_word(s: Seq<char>) -> bool {
    s.len() > 0 && forall|i: int| 0 <= i < s.len() ==> !text::whitespace(#[trigger] s[i])
}

/// A parsed key is canonical.
pub proof fn parsed_key_is_canonical(line: Seq<char>)
    ensures
        parsed_key(line) matches Ok(key) ==> canonical(key),
{
    if let Ok(key) = parsed_key(line) {
        let entry = text::trimmed(line);
        let left = text::trimmed_start(line);
        text::lemma_trimmed_start(line);
        text::lemma_trimmed_end(left);
        text::lemma_word_len(entry);
        let after = text::after_word(entry);
        let rest = text::trimmed_start(after);
        text::lemma_trimmed_start(after);
        text::lemma_word_len(rest);
        let tail = text::after_word(rest);
        let comment = text::trimmed(tail);
        text::lemma_trimmed_start(tail);
        text::lemma_trimmed_end(text::trimmed_start(tail));
        lemma_part_has_no_control(line, line.len() - left.len(), entry);
        lemma_part_has_no_control(entry, 0, key.algorithm);
        lemma_part_has_no_control(entry, text::word_len(entry) as int, after);
        lemma_part_has_no_control(after, after.len() - rest.len(), rest);
        lemma_part_has_no_control(rest, 0, key.key_data);
        lemma_part_has_no_control(rest, text::word_len(rest) as int, tail);
        lemma_part_has_no_control(tail, tail.len() - text::trimmed_start(tail).len(), comment);
        assert(entry.len() > 0 ==> entry[0] == left[0]);
        assert(comment.len() > 0 ==> comment[0] == text::trimmed_start(tail)[0]);
    }
}

/// Rendering a parsed key and parsing the result gives the key back.
pub proof fn key_render_round_trips(line: Seq<char>)
    ensures
        parsed_key(line) matches Ok(key) ==> parsed_key(rendered_key(key))
            == Ok::<CaKey, TrustedCaError>(key),
{
    if let Ok(key) = parsed_key(line) {
        parsed_key_is_canonical(line);
        lemma_canonical_key_parses(key);
    }
}

/// Rendering a parsed file and parsing the result gives the same keys back.
pub proof fn file_render_round_trips(contents: Seq<char>)
    ensures
        parsed_file(contents) matches Ok(keys) ==> parsed_file(rendered_file(keys))
            == Ok::<Seq<CaKey>, TrustedCaError>(keys),
{
    if let Ok(keys) = parsed_file(contents) {
        lemma_parsed_lines_are_canonical(text::lines(contents));
        lemma_canonical_file_parses(keys);
    }
}

/// A file is rejected exactly when one of its key lines is, and then with the
/// reason of the first such line.
pub proof fn file_is_rejected_for_its_first_bad_line(contents: Seq<char>)
    ensures
        parsed_file(contents) is Ok <==> forall|i: int|
            0 <= i < text::lines(contents).len() ==> line_accepted(
                #[trigger] text::lines(contents)[i],
            ),
        parsed_file(contents) matches Err(e) ==> exists|i: int|
            {
                &&& 0 <= i < text::lines(contents).len()
                &&& !ignored_line(#[trigger] text::lines(contents)[i])
                &&& parsed_key(text::lines(contents)[i]) == Err::<CaKey, TrustedCaError>(e)
                &&& forall|j: int|
                    0 <= j < i ==> line_accepted(#[trigger] text::lines(contents)[j])
            },
{
    lemma_first_bad_line(text::lines(contents));
}

/// A line that does not make a file invalid.
pub open spec fn line_accepted(line: Seq<char>) -> bool {
    ignored_line(line) || parsed_key(line) is Ok
}

proof fn lemma_first_bad_line(lines: Seq<Seq<char>>)
    ensures
        parsed_lines(lines) is Ok <==> forall|i: int|
            0 <= i < lines.len() ==> line_accepted(#[trigger] lines[i]),
        parsed_lines(lines) matches Err(e) ==> exists|i: int|
            {
                &&& 0 <= i < lines.len()
                &&& !ignored_line(#[trigger] lines[i])
                &&& parsed_key(lines[i]) == Err::<CaKey, TrustedCaError>(e)
                &&& forall|j: int| 0 <= j < i ==> line_accepted(#[trigger] lines[j])
            },
    decreases lines.len(),
{
    if lines.len() > 0 {
        let rest = lines.skip(1);
        lemma_first_bad_line(rest);
        if line_accepted(lines[0]) {
            assert(forall|i: int| 0 <= i < rest.len() ==> #[trigger] rest[i] == lines[i + 1]);
            if parsed_lines(rest) is Ok {
                assert forall|i: int| 0 <= i < lines.len() implies line_accepted(
                    #[trigger] lines[i],
                ) by {
                    if i > 0 {
                        assert(line_accepted(rest[i - 1]));
                    }
                }
            } else {
                let e = parsed_lines(rest)->Err_0;
                let k = choose|i: int|
                    {
                        &&& 0 <= i < rest.len()
                        &&& !ignored_line(#[trigger] rest[i])
                        &&& parsed_key(rest[i]) == Err::<CaKey, TrustedCaError>(e)
                        &&& forall|j: int| 0 <= j < i ==> line_accepted(#[trigger] rest[j])
                    };
                assert(!line_accepted(lines[k + 1]));
                assert forall|j: int| 0 <= j < k + 1 implies line_accepted(#[trigger] lines[j]) by {
                    if j > 0 {
                        assert(line_accepted(rest[j - 1]));
                    }
                }
            }
        } else {
            assert(!line_accepted(lines[0]));
        }
    }
}

proof fn lemma_part_has_no_control(whole: Seq<char>, from: int, part: Seq<char>)
    requires
        !has_control(whole),
        0 <= from,
        from + part.len() <= whole.len(),
        part =~= whole.subrange(from, from + part.len()),
    ensures
        !has_control(part),
{
    assert forall|i: int| 0 <= i < part.len() implies !text::control(#[trigger] part[i]) by {
        assert(part[i] == whole[from + i]);
    }
}

/// A word followed by nothing or by whitespace is the first word.
proof fn lemma_first_word(word: Seq<char>, rest: Seq<char>)
    requires
        is_word(word),
        rest.len() == 0 || text::whitespace(rest[0]),
    ensures
        text::first_word(word + rest) == word,
        text::after_word(word + rest) == rest,
{
    let s = word + rest;
    text::lemma_word_len(s);
    let n = text::word_len(s) as int;
    if n < word.len() {
        assert(s[n] == word[n]);
    }
    if n > word.len() {
        assert(s[word.len() as int] == rest[0]);
    }
    assert(s.take(n) == word);
    assert(s.skip(n) == rest);
}

proof fn lemma_canonical_key_parses(key: CaKey)
    requires
        canonical(key),
    ensures
        parsed_key(rendered_key(key)) == Ok::<CaKey, TrustedCaError>(key),
        !has_control(rendered_key(key)),
        !ignored_line(rendered_key(key)),
{
    text::lemma_space();
    let line = rendered_key(key);
    let tail = match key.comment {
        Some(c) => seq![' '] + c,
        None => Seq::<char>::empty(),
    };
    let rest = key.key_data + tail;
    let after = seq![' '] + rest;
    assert(line == key.algorithm + after);
    assert forall|i: int| 0 <= i < line.len() implies !text::control(#[trigger] line[i]) by {
        let a = key.algorithm.len() as int;
        let d = key.key_data.len() as int;
        if i < a {
            assert(line[i] == key.algorithm[i]);
        } else if i == a {
        } else if i < a + 1 + d {
            assert(line[i] == key.key_data[i - a - 1]);
        } else if i > a + 1 + d {
            assert(line[i] == key.comment.unwrap()[i - a - d - 2]);
        }
    }
    match key.comment {
        Some(c) => {
            assert(line.last() == c.last());
            assert(rest.last() == c.last());
            text::lemma_already_trimmed(c);
        },
        None => {
            assert(line.last() == key.key_data.last());
            assert(rest == key.key_data);
        },
    }
    assert(line[0] == key.algorithm[0]);
    assert(rest[0] == key.key_data[0]);
    text::lemma_already_trimmed(line);
    lemma_first_word(key.algorithm, after);
    text::lemma_already_trimmed(rest);
    lemma_first_word(key.key_data, tail);
    lemma_algorithm_is_no_comment(key.algorithm);
}

/// No algorithm name starts a `#` comment.
proof fn lemma_algorithm_is_no_comment(algorithm: Seq<char>)
    requires
        allowed_algorithm(algorithm),
    ensures
        algorithm[0] != '#',
{
    reveal_strlit("ssh-ed25519");
    reveal_strlit("ssh-rsa");
    reveal_strlit("rsa-sha2-256");
    reveal_strlit("rsa-sha2-512");
    reveal_strlit("ecdsa-sha2-nistp256");
    reveal_strlit("ecdsa-sha2-nistp384");
    reveal_strlit("ecdsa-sha2-nistp521");
    reveal_strlit("sk-ssh-ed25519@openssh.com");
    reveal_strlit("sk-ecdsa-sha2-nistp256@openssh.com");
}

proof fn lemma_parsed_lines_are_canonical(lines: Seq<Seq<char>>)
    ensures
        parsed_lines(lines) matches Ok(keys) ==> forall|i: int|
            0 <= i < keys.len() ==> canonical(#[trigger] keys[i]),
    decreases lines.len(),
{
    if lines.len() > 0 {
        lemma_parsed_lines_are_canonical(lines.skip(1));
        parsed_key_is_canonical(lines[0]);
    }
}

proof fn lemma_canonical_file_parses(keys: Seq<CaKey>)
    requires
        forall|i: int| 0 <= i < keys.len() ==> canonical(#[trigger] keys[i]),
    ensures
        parsed_file(rendered_file(keys)) == Ok::<Seq<CaKey>, TrustedCaError>(keys),
    decreases keys.len(),
{
    if keys.len() == 0 {
        assert(keys == Seq::<CaKey>::empty());
    } else {
        let rest = keys.skip(1);
        lemma_canonical_file_parses(rest);
        lemma_canonical_key_parses(keys[0]);
        let line = rendered_key(keys[0]);
        assert forall|i: int| 0 <= i < line.len() implies line[i] != '\n' && line[i] != '\r' by {
            assert(!text::control(line[i]));
        }
        text::lemma_lines_of_line_and_rest(line, rendered_file(rest));
        assert((seq![line] + text::lines(rendered_file(rest))).skip(1) == text::lines(
            rendered_file(rest),
        ));
        assert(seq![keys[0]] + rest == keys);
    }
}

// ---------------------------------------------------------------------------
// Base64
// ---------------------------------------------------------------------------

/// The character that stands for a value below 64 in standard base64.
pub open spec fn base64_digit(v: int) -> char {
    if v < 26 {
        ('A' as int + v) as char
    } else if v < 52 {
        ('a' as int + (v - 26)) as char
    } else if v < 62 {
        ('0' as int + (v - 52)) as char
    } else if v == 62 {
        '+'
    } else {
        '/'
    }
}

/// The standard base64 encoding of a byte sequence: four characters for every
/// three bytes, six bits each, the last group padded with `=`.
pub open spec fn base64_encoding(bytes: Seq<u8>) -> Seq<char>
    decreases bytes.len(),
{
    if bytes.len() == 0 {
        Seq::empty()
    } else if bytes.len() == 1 {
        let n = bytes[0] as int * 0x1_0000;
        seq![base64_digit(n / 0x4_0000 % 64), base64_digit(n / 0x1000 % 64), '=', '=']
    } else if bytes.len() == 2 {
        let n = bytes[0] as int * 0x1_0000 + bytes[1] as int * 0x100;
        seq![
            base64_digit(n / 0x4_0000 % 64),
            base64_digit(n / 0x1000 % 64),
            base64_digit(n / 0x40 % 64),
            '=',
        ]
    } else {
        let n = bytes[0] as int * 0x1_0000 + bytes[1] as int * 0x100 + bytes[2] as int;
        seq![
            base64_digit(n / 0x4_0000 % 64),
            base64_digit(n / 0x1000 % 64),
            base64_digit(n / 0x40 % 64),
            base64_digit(n % 64),
        ] + base64_encoding(bytes.skip(3))
    }
}

/// The accepted alphabet is exactly that of standard base64: the characters that
/// stand for the values below 64, and no others.
pub proof fn base64_alphabet_is_exact(c: char)
    ensures
        base64_char(c) <==> exists|v: int| 0 <= v < 64 && c == #[trigger] base64_digit(v),
{
    if base64_char(c) {
        let u = c as int;
        if 'A' <= c && c <= 'Z' {
            assert(base64_digit(u - 'A' as int) == c);
        } else if 'a' <= c && c <= 'z' {
            assert(base64_digit(u - 'a' as int + 26) == c);
        } else if '0' <= c && c <= '9' {
            assert(base64_digit(u - '0' as int + 52) == c);
        } else if c == '+' {
            assert(base64_digit(62) == c);
        } else {
            assert(base64_digit(63) == c);
        }
    }
}

/// The base64 encoding of every non-empty byte sequence is accepted as a key
/// blob.
pub proof fn base64_encodings_are_accepted(bytes: Seq<u8>, s: &str, accepted: bool)
    requires
        bytes.len() > 0,
        s@ == base64_encoding(bytes),
        call_ensures(is_valid_base64, (s,), accepted),
    ensures
        accepted,
{
    lemma_encoding_is_valid(bytes);
}

/// Whether the character at `i` may stand there in base64 text: it stands for a
/// value below 64, or it is padding, last or before padding that is last.
pub open spec fn base64_place(s: Seq<char>, i: int) -> bool {
    ||| exists|v: int| 0 <= v < 64 && s[i] == #[trigger] base64_digit(v)
    ||| s[i] == '=' && i == s.len() - 1
    ||| s[i] == '=' && i == s.len() - 2 && s[i + 1] == '='
}

/// Accepted as a key blob is a non-empty multiple of four characters, each of
/// which stands for a value below 64, except that the last one or two may be
/// padding; and nothing else is.
pub proof fn accepted_blobs_are_base64(s: &str, accepted: bool)
    requires
        call_ensures(is_valid_base64, (s,), accepted),
    ensures
        accepted <==> {
            &&& s@.len() > 0
            &&& s@.len() % 4 == 0
            &&& forall|i: int| 0 <= i < s@.len() ==> #[trigger] base64_place(s@, i)
        },
{
    lemma_valid_base64(s@);
}

proof fn lemma_valid_base64(s: Seq<char>)
    ensures
        valid_base64(s) <==> {
            &&& s.len() > 0
            &&& s.len() % 4 == 0
            &&& forall|i: int| 0 <= i < s.len() ==> #[trigger] base64_place(s, i)
        },
{
    let n = s.len() as int;
    assert forall|i: int| #[trigger] base64_place(s, i) == {
        ||| base64_char(s[i])
        ||| s[i] == '=' && i == n - 1
        ||| s[i] == '=' && i == n - 2 && s[i + 1] == '='
    } by {
        base64_alphabet_is_exact(s[i]);
    }
    if valid_base64(s) {
        let p = choose|padding: int| 0 <= padding <= 2 && #[trigger] base64_with_padding(s, padding);
        assert(base64_with_padding(s, p));
        assert forall|i: int| 0 <= i < n implies #[trigger] base64_place(s, i) by {
            if i >= n - p {
                assert(s[i] == '=');
                if i == n - 2 {
                    assert(s[n - 1] == '=');
                }
            } else {
                assert(base64_char(s[i]));
            }
        }
    }
    if n > 0 && n % 4 == 0 && (forall|i: int| 0 <= i < n ==> #[trigger] base64_place(s, i)) {
        assert(base64_place(s, n - 1));
        assert(base64_place(s, n - 2));
        let p: int = if s[n - 1] != '=' {
            0
        } else if s[n - 2] != '=' {
            1
        } else {
            2
        };
        assert forall|i: int| 0 <= i < n - p implies base64_char(#[trigger] s[i]) by {
            assert(base64_place(s, i));
        }
        assert(base64_with_padding(s, p));
    }
}

proof fn lemma_digit_is_in_alphabet(v: int)
    requires
        0 <= v < 64,
    ensures
        base64_char(base64_digit(v)),
{
}

/// Four characters of the alphabet in front of valid base64 make valid base64.
proof fn lemma_longer_base64(quad: Seq<char>, rest: Seq<char>)
    requires
        quad.len() == 4,
        base64_char(quad[0]) && base64_char(quad[1]) && base64_char(quad[2]) && base64_char(quad[3]),
        rest.len() == 0 || valid_base64(rest),
    ensures
        valid_base64(quad + rest),
{
    let s = quad + rest;
    let p: int = if rest.len() == 0 {
        0
    } else {
        choose|padding: int| 0 <= padding <= 2 && #[trigger] base64_with_padding(rest, padding)
    };
    assert forall|i: int| 0 <= i < s.len() - p implies base64_char(#[trigger] s[i]) by {
        if i < 4 {
            assert(s[i] == quad[i]);
        } else {
            assert(s[i] == rest[i - 4]);
        }
    }
    assert forall|i: int| s.len() - p <= i < s.len() implies #[trigger] s[i] == '=' by {
        assert(s[i] == rest[i - 4]);
    }
    assert(base64_with_padding(s, p));
}

proof fn lemma_encoding_is_valid(bytes: Seq<u8>)
    requires
        bytes.len() > 0,
    ensures
        valid_base64(base64_encoding(bytes)),
    decreases bytes.len(),
{
    let s = base64_encoding(bytes);
    if bytes.len() == 1 {
        let n = bytes[0] as int * 0x1_0000;
        lemma_digit_is_in_alphabet(n / 0x4_0000 % 64);
        lemma_digit_is_in_alphabet(n / 0x1000 % 64);
        assert(base64_with_padding(s, 2));
    } else if bytes.len() == 2 {
        let n = bytes[0] as int * 0x1_0000 + bytes[1] as int * 0x100;
        lemma_digit_is_in_alphabet(n / 0x4_0000 % 64);
        lemma_digit_is_in_alphabet(n / 0x1000 % 64);
        lemma_digit_is_in_alphabet(n / 0x40 % 64);
        assert(base64_with_padding(s, 1));
    } else {
        let n = bytes[0] as int * 0x1_0000 + bytes[1] as int * 0x100 + bytes[2] as int;
        lemma_digit_is_in_alphabet(n / 0x4_0000 % 64);
        lemma_digit_is_in_alphabet(n / 0x1000 % 64);
        lemma_digit_is_in_alphabet(n / 0x40 % 64);
        lemma_digit_is_in_alphabet(n % 64);
        let quad = seq![
            base64_digit(n / 0x4_0000 % 64),
            base64_digit(n / 0x1000 % 64),
            base64_digit(n / 0x40 % 64),
            base64_digit(n % 64),
        ];
        let rest = base64_encoding(bytes.skip(3));
        if bytes.len() > 3 {
            lemma_encoding_is_valid(bytes.skip(3));
        }
        lemma_longer_base64(quad, rest);
    }
}

// ---------------------------------------------------------------------------
// What is read from a line, and from a file
// ---------------------------------------------------------------------------

/// The names of the algorithms on the allow-list.
pub open spec fn allow_list() -> Seq<Seq<char>> {
    seq![
        "ssh-ed25519"@,
        "ssh-rsa"@,
        "rsa-sha2-256"@,
        "rsa-sha2-512"@,
        "ecdsa-sha2-nistp256"@,
        "ecdsa-sha2-nistp384"@,
        "ecdsa-sha2-nistp521"@,
        "sk-ssh-ed25519@openssh.com"@,
        "sk-ecdsa-sha2-nistp256@openssh.com"@,
    ]
}

/// Text that is base64: see [`accepted_blobs_are_base64`].
pub open spec fn base64_text(s: Seq<char>) -> bool {
    &&& s.len() > 0
    &&& s.len() % 4 == 0
    &&& forall|i: int| 0 <= i < s.len() ==> #[trigger] base64_place(s, i)
}

/// Exactly nine algorithms are allowed, by their exact names.
pub proof fn algorithm_allow_list_is_exact(name: &[char], allowed: bool)
    requires
        call_ensures(is_allowed_algorithm, (name,), allowed),
    ensures
        allowed <==> allow_list().contains(name@),
{
    lemma_allow_list(name@);
}

proof fn lemma_allow_list(name: Seq<char>)
    ensures
        allowed_algorithm(name) <==> allow_list().contains(name),
{
    let list = allow_list();
    assert(list[0] == "ssh-ed25519"@);
    assert(list[1] == "ssh-rsa"@);
    assert(list[2] == "rsa-sha2-256"@);
    assert(list[3] == "rsa-sha2-512"@);
    assert(list[4] == "ecdsa-sha2-nistp256"@);
    assert(list[5] == "ecdsa-sha2-nistp384"@);
    assert(list[6] == "ecdsa-sha2-nistp521"@);
    assert(list[7] == "sk-ssh-ed25519@openssh.com"@);
    assert(list[8] == "sk-ecdsa-sha2-nistp256@openssh.com"@);
}

/// A key line is read field by field. Whatever whitespace surrounds them, its
/// first two words are the algorithm and the blob, and what follows, without
/// surrounding whitespace, is the comment. It is accepted, with these very fields,
/// if and only if the algorithm is on the allow-list and the blob is base64; the
/// algorithm is judged first.
pub proof fn key_line_is_read_field_by_field(
    line: &str,
    margins: (Seq<char>, Seq<char>, Seq<char>, Seq<char>),
    algorithm: Seq<char>,
    blob: Seq<char>,
    comment: Seq<char>,
    r: Result<CaPublicKey, TrustedCaError>,
)
    requires
        line@ == margins.0 + algorithm + margins.1 + blob + margins.2 + comment + margins.3,
        text::blank(margins.0) && text::blank(margins.1) && text::blank(margins.2) && text::blank(
            margins.3,
        ),
        is_word(algorithm),
        is_word(blob),
        margins.1.len() > 0,
        comment.len() > 0 ==> margins.2.len() > 0 && !text::whitespace(comment[0])
            && !text::whitespace(comment.last()),
        forall|i: int| 0 <= i < line@.len() ==> !text::control(#[trigger] line@[i]),
        call_ensures(CaPublicKey::parse, (line,), r),
    ensures
        !allow_list().contains(algorithm) ==> r == Err::<CaPublicKey, TrustedCaError>(
            TrustedCaError::DisallowedAlgorithm,
        ),
        allow_list().contains(algorithm) && !base64_text(blob) ==> r == Err::<
            CaPublicKey,
            TrustedCaError,
        >(TrustedCaError::InvalidEncoding),
        allow_list().contains(algorithm) && base64_text(blob) ==> {
            &&& r matches Ok(key)
            &&& key@.algorithm == algorithm
            &&& key@.key_data == blob
            &&& key@.comment == if comment.len() == 0 {
                None
            } else {
                Some(comment)
            }
        },
{
    lemma_allow_list(algorithm);
    lemma_valid_base64(blob);
    let (w0, w1, w2, w3) = margins;
    let entry = text::trimmed(line@);
    let end = if comment.len() == 0 {
        Seq::empty()
    } else {
        w2 + comment
    };
    let core = algorithm + w1 + blob + end;
    let right = if comment.len() == 0 {
        w2 + w3
    } else {
        w3
    };
    assert(text::blank(right)) by {
        assert forall|i: int| 0 <= i < right.len() implies text::whitespace(#[trigger] right[i]) by {
            if comment.len() == 0 {
                if i < w2.len() {
                    assert(right[i] == w2[i]);
                } else {
                    assert(right[i] == w3[i - w2.len()]);
                }
            }
        }
    }
    assert(line@ == w0 + core + right);
    assert(core[0] == algorithm[0]);
    if comment.len() == 0 {
        assert(core.last() == blob.last());
    } else {
        assert(core.last() == comment.last());
    }
    text::trimming_leaves_the_core(w0, core, right);
    let behind = w1 + blob + end;
    assert(core == algorithm + behind);
    assert(behind[0] == w1[0]);
    text::words_are_separated_by_whitespace(Seq::empty(), algorithm, behind);
    let fields = blob + end;
    assert(fields[0] == blob[0]);
    assert(fields.last() == core.last());
    assert(behind == w1 + fields + Seq::<char>::empty());
    text::trimming_leaves_the_core(w1, fields, Seq::empty());
    assert(fields + Seq::<char>::empty() == fields);
    if comment.len() > 0 {
        assert(end[0] == w2[0]);
    }
    text::words_are_separated_by_whitespace(Seq::empty(), blob, end);
    if comment.len() == 0 {
        assert(text::trimmed(end) == Seq::<char>::empty());
    } else {
        assert(end == w2 + comment + Seq::<char>::empty());
        text::trimming_leaves_the_core(w2, comment, Seq::empty());
    }
}

/// The other ways in which a key line is rejected: for a control character
/// anywhere in it, before all else; for being blank; for being a single word.
pub proof fn key_line_without_fields_is_rejected(
    line: &str,
    left: Seq<char>,
    word: Seq<char>,
    right: Seq<char>,
    r: Result<CaPublicKey, TrustedCaError>,
)
    requires
        call_ensures(CaPublicKey::parse, (line,), r),
    ensures
        r == Err::<CaPublicKey, TrustedCaError>(TrustedCaError::IllegalCharacter) <==> exists|i: int|
            0 <= i < line@.len() && {
                ||| (#[trigger] line@[i]) as u32 <= 0x1f
                ||| 0x7f <= line@[i] as u32 <= 0x9f
            },
        (forall|i: int| 0 <= i < line@.len() ==> !text::control(#[trigger] line@[i])) ==> {
            &&& r == Err::<CaPublicKey, TrustedCaError>(TrustedCaError::Empty) <==> text::blank(
                line@,
            )
            &&& line@ == left + word + right && text::blank(left) && text::blank(right) && is_word(
                word,
            ) ==> r == Err::<CaPublicKey, TrustedCaError>(TrustedCaError::Malformed)
        },
{
    text::only_blank_text_trims_to_nothing(line@);
    if line@ == left + word + right && text::blank(left) && text::blank(right) && is_word(word) {
        text::trimming_leaves_the_core(left, word, right);
        text::words_are_separated_by_whitespace(Seq::empty(), word, Seq::empty());
        assert(word + Seq::<char>::empty() == word);
    }
}

/// The fields of a key are what its accessors hand out, and its line is these
/// fields with a blank between them.
pub proof fn key_is_rendered_field_by_field(
    key: CaPublicKey,
    algorithm: &str,
    key_data: &str,
    comment: Option<&str>,
    line: String,
)
    requires
        call_ensures(CaPublicKey::algorithm, (&key,), algorithm),
        call_ensures(CaPublicKey::key_data, (&key,), key_data),
        call_ensures(CaPublicKey::comment, (&key,), comment),
        call_ensures(CaPublicKey::render, (&key,), line),
    ensures
        key@.algorithm == algorithm@,
        key@.key_data == key_data@,
        key@.comment == match comment {
            Some(c) => Some(c@),
            None => None,
        },
        line@ == match comment {
            Some(c) => algorithm@.push(' ') + key_data@.push(' ') + c@,
            None => algorithm@.push(' ') + key_data@,
        },
{
    text::lemma_space();
}

/// Whether two results of parsing a file say the same.
pub open spec fn same_verdict(a: Result<TrustedCaKeys, Error>, b: Result<TrustedCaKeys, Error>) -> bool {
    match (a, b) {
        (Ok(one), Ok(other)) => one@ == other@,
        (Err(one), Err(other)) => one == other,
        _ => false,
    }
}

/// A file is read line by line. A line that is blank or a comment makes no
/// difference; any other is read as a key, which comes before the keys of the
/// remaining lines, or makes the file invalid for its own reason. How the line
/// ends, in `\n` or `\r\n`, makes no difference either.
pub proof fn file_is_read_line_by_line(
    file: &str,
    line: &str,
    ending: Seq<char>,
    rest: &str,
    file_r: Result<TrustedCaKeys, Error>,
    line_r: Result<CaPublicKey, TrustedCaError>,
    rest_r: Result<TrustedCaKeys, Error>,
)
    requires
        file@ == line@ + ending + rest@,
        !line@.contains('\n'),
        ending == seq!['\r', '\n'] || ending == seq!['\n'] && (line@.len() > 0 ==> line@.last()
            != '\r'),
        call_ensures(TrustedCaKeys::parse, (file,), file_r),
        call_ensures(CaPublicKey::parse, (line,), line_r),
        call_ensures(TrustedCaKeys::parse, (rest,), rest_r),
    ensures
        if text::blank_or_comment(line@) {
            same_verdict(file_r, rest_r)
        } else {
            match (line_r, rest_r) {
                (Err(e), _) => file_r == Err::<TrustedCaKeys, Error>(Error::InvalidTrustedCa(e)),
                (Ok(_), Err(e)) => file_r == Err::<TrustedCaKeys, Error>(e),
                (Ok(key), Ok(more)) => file_r matches Ok(keys) && keys@ == seq![key@] + more@,
            }
        },
{
    text::lines_are_separated_by_line_endings(line@, ending, rest@);
    text::comments_begin_with_a_hash(line@);
    assert((seq![line@] + text::lines(rest@)).skip(1) == text::lines(rest@));
}

/// An empty file holds no keys, and the last line of a file is read like any
/// other if it has no line ending.
pub proof fn last_line_needs_no_line_ending(
    file: &str,
    file_r: Result<TrustedCaKeys, Error>,
    line_r: Result<CaPublicKey, TrustedCaError>,
)
    requires
        !file@.contains('\n'),
        call_ensures(TrustedCaKeys::parse, (file,), file_r),
        call_ensures(CaPublicKey::parse, (file,), line_r),
    ensures
        if text::blank_or_comment(file@) {
            file_r matches Ok(keys) && keys@ == Seq::<CaKey>::empty()
        } else {
            match line_r {
                Err(e) => file_r == Err::<TrustedCaKeys, Error>(Error::InvalidTrustedCa(e)),
                Ok(key) => file_r matches Ok(keys) && keys@ == seq![key@],
            }
        },
{
    text::text_without_newline_is_one_line(file@);
    text::comments_begin_with_a_hash(file@);
    if file@.len() > 0 {
        assert(seq![file@].skip(1) == Seq::<Seq<char>>::empty());
        assert(parsed_lines(seq![file@].skip(1)) == Ok::<Seq<CaKey>, TrustedCaError>(Seq::empty()));
        if let Ok(key) = line_r {
            assert(seq![key@] + Seq::<CaKey>::empty() == seq![key@]);
        }
    }
}

/// A file of keys is rendered key by key, each on a line of its own, and an empty
/// one as nothing; the keys are handed out in order and counted right.
pub proof fn file_is_rendered_key_by_key(
    file: TrustedCaKeys,
    rest: TrustedCaKeys,
    keys: &[CaPublicKey],
    len: usize,
    empty: bool,
    rendered: String,
    rest_rendered: String,
    line: String,
)
    requires
        call_ensures(TrustedCaKeys::keys, (&file,), keys),
        call_ensures(TrustedCaKeys::len, (&file,), len),
        call_ensures(TrustedCaKeys::is_empty, (&file,), empty),
        call_ensures(TrustedCaKeys::render, (&file,), rendered),
        call_ensures(TrustedCaKeys::render, (&rest,), rest_rendered),
        keys@.len() > 0 ==> call_ensures(CaPublicKey::render, (&keys@[0],), line),
    ensures
        keys@.len() == file@.len(),
        forall|i: int| 0 <= i < keys@.len() ==> (#[trigger] keys@[i])@ == file@[i],
        len == file@.len(),
        empty <==> file@.len() == 0,
        file@.len() == 0 ==> rendered@.len() == 0,
        file@.len() > 0 && rest@ == file@.skip(1) ==> rendered@ == line@.push('\n')
            + rest_rendered@,
{
}

/// What a key and a list of keys can be asked is what they hold: each field, the
/// keys in order, how many there are, and whether there are any. The default list
/// has none.
pub proof fn accessors_agree_with_what_is_held(
    key: CaPublicKey,
    algorithm: &str,
    key_data: &str,
    comment: Option<&str>,
    list: TrustedCaKeys,
    keys: &[CaPublicKey],
    len: usize,
    empty: bool,
    none: TrustedCaKeys,
)
    requires
        call_ensures(CaPublicKey::algorithm, (&key,), algorithm),
        call_ensures(CaPublicKey::key_data, (&key,), key_data),
        call_ensures(CaPublicKey::comment, (&key,), comment),
        call_ensures(TrustedCaKeys::keys, (&list,), keys),
        call_ensures(TrustedCaKeys::len, (&list,), len),
        call_ensures(TrustedCaKeys::is_empty, (&list,), empty),
        call_ensures(TrustedCaKeys::default, (), none),
    ensures
        algorithm@ == key@.algorithm,
        key_data@ == key@.key_data,
        comment is Some <==> key@.comment is Some,
        comment matches Some(c) ==> key@.comment == Some(c@),
        keys@.len() == list@.len() && len == list@.len(),
        forall|i: int| 0 <= i < keys@.len() ==> (#[trigger] keys@[i])@ == list@[i],
        empty <==> len == 0,
        none@.len() == 0,
{
    assert(views(keys@) == list@);
    assert forall|i: int| 0 <= i < keys@.len() implies (#[trigger] keys@[i])@ == list@[i] by {
        assert(views(keys@)[i] == keys@[i]@);
    }
}

} // verus!
