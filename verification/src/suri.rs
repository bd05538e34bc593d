//! The text form of a secret, a derivation path and a password.
//!
//! A text is a secret, then any number of path segments, each one or two
//! slashes and a code without slashes, then optionally three slashes and a
//! password. One slash starts a soft junction, two a hard one.

use vstd::prelude::*;
use vstd::string::StringSliceAdditionalSpecFns;
use crate::bytes::copy_range;
use crate::error::SecretStringError;
use crate::junction::chain_code_of;
use crate::junction::DeriveJunction;
use crate::junction::JunctionView;
use crate::scale::MAX_PREFIXED_LEN;

verus! {

/// The byte that separates the parts of a text.
pub const SLASH: u8 = 0x2f;

/// A parsed secret text.
#[derive(Clone, PartialEq, Eq, Debug)]
pub struct SecretUri {
    /// The secret: everything before the first slash.
    pub phrase: Vec<u8>,
    /// The junctions of the path, root first.
    pub junctions: Vec<DeriveJunction>,
    /// The password, where the text gives one.
    pub password: Option<Vec<u8>>,
}

/// One segment of a path as written: its kind and its code.
pub struct Segment {
    pub hard: bool,
    pub code: Seq<u8>,
}

/// What a secret text says: the secret, the segments in the order written, and
/// the password.
pub struct UriModel {
    pub secret: Seq<u8>,
    pub path: Seq<Segment>,
    pub password: Option<Seq<u8>>,
}

/// The index of the first slash of `text` at or after `pos`, or the length of
/// `text` where there is none.
pub open spec fn run_end(text: Seq<u8>, pos: int) -> int
    decreases text.len() - pos,
{
    if pos >= text.len() {
        text.len() as int
    } else if text[pos] == SLASH {
        pos
    } else {
        run_end(text, pos + 1)
    }
}

/// Whether `count` slashes stand in `text` from `pos` on.
pub open spec fn slashes_at(text: Seq<u8>, pos: int, count: int) -> bool {
    &&& 0 <= pos
    &&& pos + count <= text.len()
    &&& forall|j: int| pos <= j < pos + count ==> #[trigger] text[j] == SLASH
}

/// The segments and the password that `text` holds from `pos` on, where
/// `pos` is the end of the text or the place of a slash. There are none where
/// one or two slashes are followed by no code, or by a code too long to be
/// length-prefixed.
pub open spec fn spec_parse_path(text: Seq<u8>, pos: int) -> Option<
    (Seq<Segment>, Option<Seq<u8>>),
>
    decreases text.len() - pos,
{
    if pos < 0 || pos >= text.len() {
        Some((Seq::empty(), None))
    } else if slashes_at(text, pos, 3) {
        Some((Seq::empty(), Some(text.subrange(pos + 3, text.len() as int))))
    } else {
        let hard = slashes_at(text, pos, 2);
        let start = if hard {
            pos + 2
        } else {
            pos + 1
        };
        let end = run_end(text, start);
        if end <= start || end - start > MAX_PREFIXED_LEN {
            None
        } else {
            proof {
                lemma_run_end(text, start);
            }
            match spec_parse_path(text, end) {
                None => None,
                Some((rest, password)) => Some(
                    (seq![Segment { hard, code: text.subrange(start, end) }] + rest, password),
                ),
            }
        }
    }
}

/// What `text` says, where it is well formed.
pub open spec fn spec_parse(text: Seq<u8>) -> Option<UriModel> {
    let secret_end = run_end(text, 0);
    match spec_parse_path(text, secret_end) {
        None => None,
        Some((path, password)) => Some(
            UriModel { secret: text.subrange(0, secret_end), path, password },
        ),
    }
}

/// The junction that a segment stands for.
pub open spec fn junction_of(segment: Segment) -> JunctionView {
    JunctionView { hard: segment.hard, chain_code: chain_code_of(segment.code) }
}

/// Whether `junctions` are the junctions of `path`, one for one.
pub open spec fn junctions_match(junctions: Seq<DeriveJunction>, path: Seq<Segment>) -> bool {
    &&& junctions.len() == path.len()
    &&& forall|i: int| 0 <= i < path.len() ==> (#[trigger] junctions[i])@ == junction_of(path[i])
}

impl SecretUri {
    /// Whether this value holds what `model` says.
    pub open spec fn matches(&self, model: UriModel) -> bool {
        &&& self.phrase@ == model.secret
        &&& junctions_match(self.junctions@, model.path)
        &&& match (self.password, model.password) {
            (Some(have), Some(want)) => have@ == want,
            (None, None) => true,
            _ => false,
        }
    }
}

/// `done` before the segments of `rest`, where there are any.
pub open spec fn prepend(done: Seq<Segment>, rest: Option<(Seq<Segment>, Option<Seq<u8>>)>)
    -> Option<(Seq<Segment>, Option<Seq<u8>>)> {
    match rest {
        None => None,
        Some((path, password)) => Some((done + path, password)),
    }
}

/// The first slash at or after `pos` lies between `pos` and the end, and no
/// slash stands before it.
pub proof fn lemma_run_end(text: Seq<u8>, pos: int)
    requires
        0 <= pos <= text.len(),
    ensures
        pos <= run_end(text, pos) <= text.len(),
        run_end(text, pos) < text.len() ==> text[run_end(text, pos)] == SLASH,
        forall|j: int| pos <= j < run_end(text, pos) ==> #[trigger] text[j] != SLASH,
    decreases text.len() - pos,
{
    if pos < text.len() && text[pos] != SLASH {
        lemma_run_end(text, pos + 1);
    }
}

/// Finds the first slash of `text` at or after `pos`.
pub fn find_slash(text: &[u8], pos: usize) -> (end: usize)
    requires
        pos <= text@.len(),
    ensures
        end == run_end(text@, pos as int),
        pos <= end <= text@.len(),
{
    let mut i: usize = pos;
    while i < text.len() && text[i] != SLASH
        invariant
            pos <= i <= text@.len(),
            run_end(text@, pos as int) == run_end(text@, i as int),
        decreases text@.len() - i,
    {
        i += 1;
    }
    i
}

/// Reads a secret text.
///
/// The secret is everything before the first slash. The text is refused as
/// `InvalidFormat` where one or two slashes are followed by no code, or by a
/// code of more than `MAX_PREFIXED_LEN` bytes.
pub fn parse(text: &str) -> (out: Result<SecretUri, SecretStringError>)
    ensures
        match out {
            Ok(uri) => spec_parse(text.spec_bytes()) is Some && uri.matches(
                spec_parse(text.spec_bytes())->0,
            ),
            Err(e) => e == SecretStringError::InvalidFormat && spec_parse(text.spec_bytes())
                is None,
        },
{
    parse_bytes(text.as_bytes())
}

/// Reads a secret text given as bytes.
pub fn parse_bytes(text: &[u8]) -> (out: Result<SecretUri, SecretStringError>)
    ensures
        match out {
            Ok(uri) => spec_parse(text@) is Some && uri.matches(spec_parse(text@)->0),
            Err(e) => e == SecretStringError::InvalidFormat && spec_parse(text@) is None,
        },
{
    let n = text.len();
    let secret_end = find_slash(text, 0);
    let phrase = copy_range(text, 0, secret_end);
    let mut junctions: Vec<DeriveJunction> = Vec::new();
    let mut password: Option<Vec<u8>> = None;
    let mut pos: usize = secret_end;
    let ghost mut done: Seq<Segment> = Seq::empty();
    let ghost whole = spec_parse_path(text@, secret_end as int);
    proof {
        lemma_run_end(text@, 0);
        if let Some((path, _)) = whole {
            assert(done + path =~= path);
        }
    }
    while pos < n
        invariant
            n == text@.len(),
            pos <= n,
            pos < n ==> text@[pos as int] == SLASH,
            password is None,
            secret_end == run_end(text@, 0),
            phrase@ == text@.subrange(0, secret_end as int),
            whole == spec_parse_path(text@, secret_end as int),
            whole == prepend(done, spec_parse_path(text@, pos as int)),
            junctions_match(junctions@, done),
        decreases n - pos,
    {
        if n - pos >= 3 && text[pos + 1] == SLASH && text[pos + 2] == SLASH {
            assert(slashes_at(text@, pos as int, 3));
            password = Some(copy_range(text, pos + 3, n));
            proof {
                assert(done + Seq::<Segment>::empty() =~= done);
            }
            return Ok(SecretUri { phrase, junctions, password });
        }
        assert(!slashes_at(text@, pos as int, 3)) by {
            if slashes_at(text@, pos as int, 3) {
                assert(text@[pos + 1] == SLASH);
                assert(text@[pos + 2] == SLASH);
            }
        }
        let hard = n - pos >= 2 && text[pos + 1] == SLASH;
        assert(hard == slashes_at(text@, pos as int, 2)) by {
            if slashes_at(text@, pos as int, 2) {
                assert(text@[pos + 1] == SLASH);
            }
        }
        let start: usize = if hard {
            pos + 2
        } else {
            pos + 1
        };
        let end = find_slash(text, start);
        proof {
            lemma_run_end(text@, start as int);
        }
        if end == start || end - start > MAX_PREFIXED_LEN {
            return Err(SecretStringError::InvalidFormat);
        }
        let code = copy_range(text, start, end);
        let junction = DeriveJunction::from_code(code.as_slice(), hard);
        let ghost segment = Segment { hard, code: text@.subrange(start as int, end as int) };
        proof {
            if let Some((rest, _)) = spec_parse_path(text@, end as int) {
                assert(done + (seq![segment] + rest) =~= done.push(segment) + rest);
            }
            assert(junctions_match(junctions@.push(junction), done.push(segment)));
            done = done.push(segment);
        }
        junctions.push(junction);
        pos = end;
    }
    proof {
        assert(done + Seq::<Segment>::empty() =~= done);
    }
    Ok(SecretUri { phrase, junctions, password })
}

/// Whether no byte of `text` is a slash.
pub open spec fn has_no_slash(text: Seq<u8>) -> bool {
    forall|i: int| 0 <= i < text.len() ==> #[trigger] text[i] != SLASH
}

/// Whether `segment` can be written: its code is not empty, holds no slash
/// and can be length-prefixed.
pub open spec fn segment_is_writable(segment: Segment) -> bool {
    &&& 0 < segment.code.len() <= MAX_PREFIXED_LEN
    &&& has_no_slash(segment.code)
}

/// Whether `model` can be written: its secret holds no slash and each of its
/// segments can be written.
pub open spec fn model_is_writable(model: UriModel) -> bool {
    &&& has_no_slash(model.secret)
    &&& forall|i: int| 0 <= i < model.path.len() ==> segment_is_writable(#[trigger] model.path[i])
}

/// The slashes that start a segment: two for a hard one, one for a soft one.
pub open spec fn segment_mark(hard: bool) -> Seq<u8> {
    if hard {
        seq![SLASH, SLASH]
    } else {
        seq![SLASH]
    }
}

/// The text of a path and a password: each segment behind its slashes, then
/// the password behind three slashes.
pub open spec fn render_path(path: Seq<Segment>, password: Option<Seq<u8>>) -> Seq<u8>
    decreases path.len(),
{
    if path.len() == 0 {
        match password {
            None => Seq::empty(),
            Some(p) => seq![SLASH, SLASH, SLASH] + p,
        }
    } else {
        segment_mark(path[0].hard) + path[0].code + render_path(path.drop_first(), password)
    }
}

/// The text that says what `model` says.
pub open spec fn render(model: UriModel) -> Seq<u8> {
    model.secret + render_path(model.path, model.password)
}

/// The text of a path and a password is empty or starts with a slash.
pub proof fn lemma_render_path_starts_with_slash(path: Seq<Segment>, password: Option<Seq<u8>>)
    ensures
        render_path(path, password).len() > 0 ==> render_path(path, password)[0] == SLASH,
{
}

/// Behind a run of bytes without a slash that ends the text or stands before
/// a slash, the first slash is found at the end of the run.
pub proof fn lemma_run_end_of_run(text: Seq<u8>, pos: int, end: int)
    requires
        0 <= pos <= end <= text.len(),
        forall|j: int| pos <= j < end ==> #[trigger] text[j] != SLASH,
        end < text.len() ==> text[end] == SLASH,
    ensures
        run_end(text, pos) == end,
    decreases end - pos,
{
    if pos < end {
        lemma_run_end_of_run(text, pos + 1, end);
    }
}

/// What is parsed from a place in a text is writable, and written out it is
/// the rest of the text.
pub proof fn lemma_parsed_path_renders(text: Seq<u8>, pos: int)
    requires
        0 <= pos <= text.len(),
        pos < text.len() ==> text[pos] == SLASH,
        spec_parse_path(text, pos) is Some,
    ensures
        ({
            let (path, password) = spec_parse_path(text, pos)->0;
            &&& render_path(path, password) == text.subrange(pos, text.len() as int)
            &&& forall|i: int| 0 <= i < path.len() ==> segment_is_writable(#[trigger] path[i])
        }),
    decreases text.len() - pos,
{
    let (path, password) = spec_parse_path(text, pos)->0;
    let len = text.len() as int;
    if pos >= len {
        assert(render_path(path, password) =~= text.subrange(pos, len));
    } else if slashes_at(text, pos, 3) {
        assert(text[pos] == SLASH && text[pos + 1] == SLASH && text[pos + 2] == SLASH);
        assert(render_path(path, password) =~= text.subrange(pos, len));
    } else {
        let hard = slashes_at(text, pos, 2);
        let start = if hard {
            pos + 2
        } else {
            pos + 1
        };
        if hard {
            assert(text[pos + 1] == SLASH);
        }
        let end = run_end(text, start);
        lemma_run_end(text, start);
        lemma_parsed_path_renders(text, end);
        let (rest, _) = spec_parse_path(text, end)->0;
        let segment = Segment { hard, code: text.subrange(start, end) };
        assert(path == seq![segment] + rest);
        assert(path[0] == segment);
        assert(path.drop_first() =~= rest);
        assert(segment_mark(hard) =~= text.subrange(pos, start));
        assert(render_path(path, password) =~= text.subrange(pos, len));
        assert(segment_is_writable(segment));
        assert forall|i: int| 0 <= i < path.len() implies segment_is_writable(
            #[trigger] path[i],
        ) by {
            if i > 0 {
                assert(path[i] == rest[i - 1]);
            }
        }
    }
}

/// A text that parses says what was parsed: the parsed model is writable,
/// and written out it is the text again.
pub proof fn lemma_parse_is_sound(text: Seq<u8>)
    requires
        spec_parse(text) is Some,
    ensures
        model_is_writable(spec_parse(text)->0),
        render(spec_parse(text)->0) == text,
{
    let secret_end = run_end(text, 0);
    lemma_run_end(text, 0);
    lemma_parsed_path_renders(text, secret_end);
    let model = spec_parse(text)->0;
    assert(render(model) =~= text);
}

/// A writable path behind any text that ends where the path starts is parsed
/// back from that place.
pub proof fn lemma_rendered_path_parses(
    before: Seq<u8>,
    path: Seq<Segment>,
    password: Option<Seq<u8>>,
)
    requires
        forall|i: int| 0 <= i < path.len() ==> segment_is_writable(#[trigger] path[i]),
    ensures
        spec_parse_path(before + render_path(path, password), before.len() as int) == Some(
            (path, password),
        ),
    decreases path.len(),
{
    let tail = render_path(path, password);
    let text = before + tail;
    let pos = before.len() as int;
    if path.len() == 0 {
        match password {
            None => {
                assert(path =~= Seq::<Segment>::empty());
            },
            Some(p) => {
                assert(text[pos] == SLASH && text[pos + 1] == SLASH && text[pos + 2] == SLASH);
                assert(slashes_at(text, pos, 3));
                assert(text.subrange(pos + 3, text.len() as int) =~= p);
                assert(path =~= Seq::<Segment>::empty());
            },
        }
    } else {
        let segment = path[0];
        let rest = path.drop_first();
        let mark = segment_mark(segment.hard);
        let rest_text = render_path(rest, password);
        assert(segment_is_writable(segment));
        let start = pos + mark.len();
        let end = start + segment.code.len();
        assert(tail =~= mark + segment.code + rest_text);
        assert(text[pos] == SLASH);
        assert forall|j: int| start <= j < end implies #[trigger] text[j] != SLASH by {
            assert(text[j] == segment.code[j - start]);
        }
        assert(text[start] != SLASH);
        if segment.hard {
            assert(text[pos + 1] == SLASH);
            assert(slashes_at(text, pos, 2));
        } else {
            assert(!slashes_at(text, pos, 2));
        }
        assert(!slashes_at(text, pos, 3)) by {
            if slashes_at(text, pos, 3) {
                assert(text[pos + 1] == SLASH);
                assert(text[pos + 2] == SLASH);
            }
        }
        lemma_render_path_starts_with_slash(rest, password);
        if end < text.len() {
            assert(text[end] == rest_text[0]);
        }
        lemma_run_end_of_run(text, start, end);
        assert(text.subrange(start, end) =~= segment.code);
        let longer = before + mark + segment.code;
        assert(longer + rest_text =~= text);
        assert forall|i: int| 0 <= i < rest.len() implies segment_is_writable(
            #[trigger] rest[i],
        ) by {
            assert(rest[i] == path[i + 1]);
        }
        lemma_rendered_path_parses(longer, rest, password);
        assert(seq![segment] + rest =~= path);
    }
}

/// Every writable model is parsed back from its text: the grammar reads
/// exactly what it writes.
pub proof fn lemma_parse_is_complete(model: UriModel)
    requires
        model_is_writable(model),
    ensures
        spec_parse(render(model)) == Some(model),
{
    let text = render(model);
    let tail = render_path(model.path, model.password);
    let split = model.secret.len() as int;
    lemma_render_path_starts_with_slash(model.path, model.password);
    assert forall|j: int| 0 <= j < split implies #[trigger] text[j] != SLASH by {
        assert(text[j] == model.secret[j]);
    }
    if split < text.len() {
        assert(text[split] == tail[0]);
    }
    lemma_run_end_of_run(text, 0, split);
    lemma_rendered_path_parses(model.secret, model.path, model.password);
    assert(text.subrange(0, split) =~= model.secret);
}

} // verus!
