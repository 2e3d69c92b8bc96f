//! The template tree and how one file of it is instantiated: placeholder
//! substitution in text files, and the renaming of the environment template.

use crate::numeric::{decimal, decimal_string};
use vstd::prelude::*;
use vstd::string::*;
use vstd::utf8::{encode_utf8, valid_utf8};

verus! {

/// The placeholder for the project name: `{{PROJECT_NAME}}`.
pub open spec fn project_name_token() -> Seq<u8> {
    seq![123u8, 123, 80, 82, 79, 74, 69, 67, 84, 95, 78, 65, 77, 69, 125, 125]
}

/// The placeholder for the application port: `{{APP_PORT}}`.
pub open spec fn port_token() -> Seq<u8> {
    seq![123u8, 123, 65, 80, 80, 95, 80, 79, 82, 84, 125, 125]
}

/// The placeholder for the library version: `{{SWORD_VERSION}}`.
pub open spec fn version_token() -> Seq<u8> {
    seq![123u8, 123, 83, 87, 79, 82, 68, 95, 86, 69, 82, 83, 73, 79, 78, 125, 125]
}

/// The text that replaces each placeholder, as UTF-8 bytes.
pub struct Replacements {
    pub name: Seq<u8>,
    pub port: Seq<u8>,
    pub version: Seq<u8>,
}

/// The replacements for a project name, a port and a library version.
pub open spec fn replacements(project_name: Seq<char>, port: u16, library_version: Seq<char>) -> Replacements {
    Replacements {
        name: encode_utf8(project_name),
        port: encode_utf8(decimal(port as nat)),
        version: encode_utf8(library_version),
    }
}

/// `s` with every placeholder replaced, in one pass from the left: text that a
/// replacement brings in is not searched again.
pub open spec fn substituted(s: Seq<u8>, rep: Replacements) -> Seq<u8>
    decreases s.len(),
{
    if s.len() == 0 {
        seq![]
    } else if project_name_token().is_prefix_of(s) {
        rep.name + substituted(s.skip(project_name_token().len() as int), rep)
    } else if port_token().is_prefix_of(s) {
        rep.port + substituted(s.skip(port_token().len() as int), rep)
    } else if version_token().is_prefix_of(s) {
        rep.version + substituted(s.skip(version_token().len() as int), rep)
    } else {
        seq![s[0]] + substituted(s.skip(1), rep)
    }
}

/// What a template file becomes: text files get their placeholders replaced,
/// other files are copied unchanged.
pub open spec fn rendered(contents: Seq<u8>, is_text: bool, rep: Replacements) -> Seq<u8> {
    if is_text {
        substituted(contents, rep)
    } else {
        contents
    }
}

fn project_name_token_bytes() -> (r: Vec<u8>)
    ensures
        r@ == project_name_token(),
{
    vec![123u8, 123, 80, 82, 79, 74, 69, 67, 84, 95, 78, 65, 77, 69, 125, 125]
}

fn port_token_bytes() -> (r: Vec<u8>)
    ensures
        r@ == port_token(),
{
    vec![123u8, 123, 65, 80, 80, 95, 80, 79, 82, 84, 125, 125]
}

fn version_token_bytes() -> (r: Vec<u8>)
    ensures
        r@ == version_token(),
{
    vec![123u8, 123, 83, 87, 79, 82, 68, 95, 86, 69, 82, 83, 73, 79, 78, 125, 125]
}

/// Whether `token` occurs in `s` at position `i`.
fn occurs_at(s: &[u8], i: usize, token: &Vec<u8>) -> (r: bool)
    requires
        i <= s@.len(),
    ensures
        r == token@.is_prefix_of(s@.skip(i as int)),
{
    let n = s.len();
    if token.len() > n - i {
        return false;
    }
    let mut j: usize = 0;
    while j < token.len()
        invariant
            j <= token@.len(),
            i <= s@.len(),
            n == s@.len(),
            token@.len() <= s@.len() - i,
            forall|k: int| 0 <= k < j ==> token@[k] == s@[i + k],
        decreases token@.len() - j,
    {
        if token[j] != s[i + j] {
            assert(token@[j as int] != s@.skip(i as int).subrange(0, token@.len() as int)[j as int]);
            return false;
        }
        j = j + 1;
    }
    assert(token@ =~= s@.skip(i as int).subrange(0, token@.len() as int));
    true
}

fn push_all(out: &mut Vec<u8>, src: &[u8])
    ensures
        final(out)@ == old(out)@ + src@,
{
    let mut i: usize = 0;
    while i < src.len()
        invariant
            i <= src@.len(),
            out@ == old(out)@ + src@.take(i as int),
        decreases src@.len() - i,
    {
        assert(src@.take(i + 1) =~= src@.take(i as int).push(src@[i as int]));
        out.push(src[i]);
        i = i + 1;
    }
    assert(src@.take(i as int) =~= src@);
}

/// Replaces every placeholder in `text`, in one pass from the left.
pub fn substitute_placeholders(text: &[u8], name: &[u8], port: &[u8], version: &[u8]) -> (r: Vec<u8>)
    ensures
        r@ == substituted(text@, Replacements { name: name@, port: port@, version: version@ }),
{
    let ghost rep = Replacements { name: name@, port: port@, version: version@ };
    let name_token = project_name_token_bytes();
    let port_tok = port_token_bytes();
    let version_tok = version_token_bytes();
    let mut out: Vec<u8> = Vec::new();
    let mut i: usize = 0;
    assert(text@.skip(0) =~= text@);
    assert(out@ + substituted(text@, rep) =~= substituted(text@, rep));
    while i < text.len()
        invariant
            i <= text@.len(),
            name_token@ == project_name_token(),
            port_tok@ == port_token(),
            version_tok@ == version_token(),
            rep == (Replacements { name: name@, port: port@, version: version@ }),
            out@ + substituted(text@.skip(i as int), rep) == substituted(text@, rep),
        decreases text@.len() - i,
    {
        let ghost rest = text@.skip(i as int);
        if occurs_at(text, i, &name_token) {
            assert(rest.skip(16) =~= text@.skip(i + 16));
            push_all(&mut out, name);
            i = i + 16;
        } else if occurs_at(text, i, &port_tok) {
            assert(rest.skip(12) =~= text@.skip(i + 12));
            push_all(&mut out, port);
            i = i + 12;
        } else if occurs_at(text, i, &version_tok) {
            assert(rest.skip(17) =~= text@.skip(i + 17));
            push_all(&mut out, version);
            i = i + 17;
        } else {
            assert(rest.skip(1) =~= text@.skip(i + 1));
            out.push(text[i]);
            i = i + 1;
        }
        assert(out@ + substituted(text@.skip(i as int), rep) =~= substituted(text@, rep));
    }
    assert(text@.skip(i as int) =~= seq![]);
    assert(out@ + seq![] =~= out@);
    out
}

/// Relies on `std::str::from_utf8`: it succeeds exactly on well-formed UTF-8.
#[verifier::external_body]
fn is_utf8(bytes: &[u8]) -> (r: bool)
    ensures
        r == valid_utf8(bytes@),
{
    std::str::from_utf8(bytes).is_ok()
}

/// Instantiates one template file whose kind is known: placeholders are
/// replaced when `is_text` holds, otherwise the bytes are copied unchanged.
pub fn render_file(
    contents: &[u8],
    is_text: bool,
    project_name: &str,
    port: u16,
    library_version: &str,
) -> (r: Vec<u8>)
    ensures
        r@ == rendered(contents@, is_text, replacements(project_name@, port, library_version@)),
{
    if is_text {
        let port_text = decimal_string(port as u64);
        substitute_placeholders(
            contents,
            project_name.as_bytes(),
            port_text.as_str().as_bytes(),
            library_version.as_bytes(),
        )
    } else {
        let mut out: Vec<u8> = Vec::new();
        push_all(&mut out, contents);
        assert(out@ =~= contents@);
        out
    }
}

/// Instantiates one template file: a file that is well-formed UTF-8 is text
/// and gets its placeholders replaced; any other file is copied unchanged.
pub fn render_template_file(
    contents: &[u8],
    project_name: &str,
    port: u16,
    library_version: &str,
) -> (r: Vec<u8>)
    ensures
        r@ == rendered(
            contents@,
            valid_utf8(contents@),
            replacements(project_name@, port, library_version@),
        ),
        !valid_utf8(contents@) ==> r@ == contents@,
{
    let is_text = is_utf8(contents);
    render_file(contents, is_text, project_name, port, library_version)
}

/// Where the last component of a `/`-separated path starts.
pub open spec fn base_name_start(p: Seq<char>) -> int
    decreases p.len(),
{
    if p.len() == 0 {
        0
    } else if p.last() == '/' {
        p.len() as int
    } else {
        base_name_start(p.drop_last())
    }
}

/// The name under which a template file is written: the environment
/// template `env.template` becomes `.env` in the same directory; every other
/// path is kept.
pub open spec fn destination_path(p: Seq<char>) -> Seq<char> {
    let k = base_name_start(p);
    if p.skip(k) == "env.template"@ {
        p.take(k) + ".env"@
    } else {
        p
    }
}

proof fn lemma_base_name_start_bounds(p: Seq<char>)
    ensures
        0 <= base_name_start(p) <= p.len(),
    decreases p.len(),
{
    if p.len() > 0 && p.last() != '/' {
        lemma_base_name_start_bounds(p.drop_last());
    }
}

/// The path under which the template file at `path` is written.
pub fn destination_path_of(path: &str) -> (r: String)
    ensures
        r@ == destination_path(path@),
{
    let len = path.unicode_len();
    let mut k: usize = len;
    assert(path@.take(len as int) =~= path@);
    while k > 0 && path.get_char(k - 1) != '/'
        invariant
            k <= len,
            len == path@.len(),
            base_name_start(path@) == base_name_start(path@.take(k as int)),
        decreases k,
    {
        assert(path@.take(k as int).drop_last() =~= path@.take(k - 1));
        k = k - 1;
    }
    proof {
        lemma_base_name_start_bounds(path@);
    }
    let base = String::from_str(path.substring_char(k, len));
    let reserved = String::from_str("env.template");
    if base == reserved {
        let mut r = String::from_str(path.substring_char(0, k));
        r.append(".env");
        r
    } else {
        String::from_str(path)
    }
}

} // verus!
