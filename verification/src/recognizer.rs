//! The path recognizer of the `route_recognizer` crate, as the rest of the
//! library sees it: a collection of (pattern, handler id) pairs, and the
//! parameters that a successful match captures.
use vstd::prelude::*;
use route_recognizer::Router as PathRecognizer;
use route_recognizer::Params;

verus! {

#[verifier::external_type_specification]
#[verifier::external_body]
#[verifier::reject_recursive_types(T)]
pub struct ExRecognizer<T>(PathRecognizer<T>);

#[verifier::external_type_specification]
#[verifier::external_body]
pub struct ExParams(Params);

/// The patterns added to a recognizer, each with the handler id it was
/// added with, in the order of the calls of `add`.
pub uninterp spec fn recognizer_routes(r: PathRecognizer<usize>) -> Seq<(Seq<char>, usize)>;

/// The parameters held by a `Params` value, by name.
pub uninterp spec fn params_map(p: Params) -> Map<Seq<char>, Seq<char>>;

/// What `route_recognizer::Router::recognize` answers for a path, given the
/// patterns that were added: the handler id of the best matching pattern and
/// the parameters it captures, or nothing.
pub uninterp spec fn recognized(routes: Seq<(Seq<char>, usize)>, path: Seq<char>) -> Option<(usize, Map<Seq<char>, Seq<char>>)>;

/// The empty set of parameters.
pub open spec fn no_params() -> Map<Seq<char>, Seq<char>> {
    Map::empty()
}

/// A text without the character '\0'. The recognizer computes `c as u32 - 1`
/// for the characters it tests or stores, which overflows on '\0' (a panic
/// where overflow is checked). Which characters it tests depends on its
/// internal states, which the contracts do not see, so every text with '\0'
/// is left out.
pub open spec fn nul_free(s: Seq<char>) -> bool {
    forall|j: int| 0 <= j < s.len() ==> s[j] != '\0'
}

/// A text of ASCII characters only.
pub open spec fn is_ascii_text(s: Seq<char>) -> bool {
    forall|j: int| 0 <= j < s.len() ==> (s[j] as u32) < 0x80
}

/// A pattern that `route_recognizer::Router::add` takes without panicking:
/// it holds no '\0' (as `nul_free`; a '\0' inside a parameter name is only
/// copied, but telling one apart takes `add`'s segmenting), and once one
/// leading '/' is dropped it does not start with a character outside ASCII
/// (`add` slices the pattern one byte after the start of its first segment).
pub open spec fn recognizable_pattern(route: Seq<char>) -> bool {
    let r = if route.len() > 0 && route[0] == '/' {
        route.drop_first()
    } else {
        route
    };
    &&& nul_free(route)
    &&& r.len() == 0 || (r[0] as u32) < 0x80
}

/// `route_recognizer::Router::new`: a recognizer that holds no pattern.
#[verifier::external_body]
pub fn recognizer_new() -> (r: PathRecognizer<usize>)
    ensures
        recognizer_routes(r) == Seq::<(Seq<char>, usize)>::empty(),
{
    PathRecognizer::new()
}

/// `route_recognizer::Router::add`: appends the pattern with its handler id
/// to what the recognizer holds. It panics on a pattern that is not
/// `recognizable_pattern`, which the `requires` leaves out.
#[verifier::external_body]
pub fn recognizer_add(r: &mut PathRecognizer<usize>, route: &str, dest: usize)
    requires
        recognizable_pattern(route@),
    ensures
        recognizer_routes(*final(r)) == recognizer_routes(*old(r)).push((route@, dest)),
{
    r.add(route, dest)
}

/// `route_recognizer::Router::recognize`, with the matched handler id copied
/// and the captured parameters cloned out of the `Match`. The result is
/// `recognized` of the patterns held and the path. The handler id of a match
/// is one that some `add` was called with (the recognizer stores only
/// those); a recognizer that holds no pattern matches no path (its start
/// state accepts nothing and leads nowhere); and a path that is, character
/// for character, an ASCII pattern that was added is matched (its characters
/// lead through the states that `add` built for the pattern, the last of
/// which accepts). Which pattern wins where several match, and what they
/// capture, is left to `recognized`. A path with '\0' is left out: the
/// recognizer's character classes compute `c as u32 - 1`.
#[verifier::external_body]
pub fn recognizer_recognize(r: &PathRecognizer<usize>, path: &str) -> (res: Option<(usize, Params)>)
    requires
        nul_free(path@),
    ensures
        match res {
            Some((h, p)) => recognized(recognizer_routes(*r), path@) == Some((h, params_map(p))),
            None => recognized(recognizer_routes(*r), path@) is None,
        },
        res matches Some((h, p)) ==> exists|i: int|
            0 <= i < recognizer_routes(*r).len() && #[trigger] recognizer_routes(*r)[i].1 == h,
        recognizer_routes(*r).len() == 0 ==> res is None,
        is_ascii_text(path@) && (exists|i: int|
            0 <= i < recognizer_routes(*r).len() && #[trigger] recognizer_routes(*r)[i].0 == path@)
            ==> res is Some,
{
    match r.recognize(path) {
        Ok(m) => Some((**m.handler(), m.params().clone())),
        Err(_) => None,
    }
}

/// `Params::new`: no parameter.
#[verifier::external_body]
pub fn params_new() -> (p: Params)
    ensures
        params_map(p) == no_params(),
{
    Params::new()
}

/// `Params::find`: the value of the named parameter, if
/// there is one.
#[verifier::external_body]
pub fn params_find<'a>(p: &'a Params, key: &str) -> (res: Option<&'a str>)
    ensures
        res is Some <==> params_map(*p).contains_key(key@),
        res matches Some(v) ==> v@ == params_map(*p)[key@],
{
    p.find(key)
}

} // verus!
