use vstd::prelude::*;

verus! {

/// What `url::Url::parse` makes of `input`: the serialization of the
/// parsed URL, or the error the parser returns.
pub uninterp spec fn url_parse(input: Seq<char>) -> Result<Seq<char>, url::ParseError>;

/// What `url::Url::join` makes of `input` against the URL serialized as
/// `base`: the serialization of the joined URL, or the error it returns.
pub uninterp spec fn url_join(base: Seq<char>, input: Seq<char>) -> Result<
    Seq<char>,
    url::ParseError,
>;

/// The serialization of the URL serialized as `url` after, on one
/// `url::PathSegmentsMut`, `pop_if_empty` and then `extend(segments)`
/// (pushing each segment in turn).
pub uninterp spec fn url_rebuilt_path(url: Seq<char>, segments: Seq<Seq<char>>) -> Seq<char>;

/// What `Debug` of `url::Url` writes for the URL serialized as `url`.
pub uninterp spec fn url_debug(url: Seq<char>) -> Seq<char>;

/// `s` is the serialization of a URL: parsing it gives back the same text.
pub open spec fn is_serialization(s: Seq<char>) -> bool {
    url_parse(s) == Ok::<Seq<char>, url::ParseError>(s)
}

/// The URL serialized as `s` has a path that can be split into segments:
/// its scheme and `:` delimiter are followed by a `/` (it is not a
/// "cannot-be-a-base" URL).
pub open spec fn has_path_segments(s: Seq<char>) -> bool {
    exists|i: int|
        0 <= i && i + 1 < s.len() && #[trigger] s[i] == ':' && !s.take(i).contains(':') && s[i + 1]
            == '/'
}

/// In the serialization `s`, the first `:` (the end of the scheme) stands at
/// `i` and is followed by `/`.
pub open spec fn scheme_colon_at(s: Seq<char>, i: int) -> bool {
    0 <= i && i + 1 < s.len() && s[i] == ':' && !s.take(i).contains(':') && s[i + 1] == '/'
}

/// In the serialization `s`, the path ends at `k`: at the first `?` or `#`
/// (neither can stand in the scheme or the authority), or at the end.
pub open spec fn path_end_at(s: Seq<char>, k: int) -> bool {
    &&& 0 <= k <= s.len()
    &&& !s.take(k).contains('?')
    &&& !s.take(k).contains('#')
    &&& (k == s.len() || s[k] == '?' || s[k] == '#')
}

/// With the scheme's `:` at `i` and the path ending at `k`, the path of `s`
/// is non-empty, ends with one `/`, and the character before it is no `/`
/// (where `s` has an authority, `//` after the `:`, the path starts at the
/// next `/`).
pub open spec fn slash_ended_path(s: Seq<char>, i: int, k: int) -> bool {
    &&& scheme_colon_at(s, i)
    &&& path_end_at(s, k)
    &&& i + 4 <= k
    &&& s[k - 1] == '/'
    &&& s[k - 2] != '/'
    &&& (s[i + 2] == '/' ==> exists|j: int| i + 2 < j < k - 2 && #[trigger] s[j] == '/')
}

/// The path of the serialization `s` ends with a single `/` after a
/// non-empty path.
pub open spec fn has_trailing_slash(s: Seq<char>) -> bool {
    exists|i: int, k: int| slash_ended_path(s, i, k)
}

/// `s` with the `/` that ends its path taken out.
pub open spec fn without_trailing_slash(s: Seq<char>) -> Seq<char> {
    let (i, k) = choose|i: int, k: int| slash_ended_path(s, i, k);
    s.take(k - 1) + s.skip(k)
}

/// A root whose path ends with a `/` has path segments, and so has the same
/// root without that `/`.
pub proof fn lemma_trailing_slash_segments(s: Seq<char>)
    requires
        has_trailing_slash(s),
    ensures
        has_path_segments(s),
        has_path_segments(without_trailing_slash(s)),
{
    let (i, k) = choose|i: int, k: int| slash_ended_path(s, i, k);
    let t = without_trailing_slash(s);
    assert(s[i] == ':');
    assert(t[i] == s[i]);
    assert(t[i + 1] == s[i + 1]);
    assert(t.take(i) =~= s.take(i));
    assert(t[i] == ':');
}

/// The pieces of `s` between its `/` characters, as `str::split('/')`
/// yields them: `"a/b"` gives `a`, `b`; `""` gives one empty piece.
pub open spec fn split_path(s: Seq<char>) -> Seq<Seq<char>>
    decreases s.len(),
{
    if s.len() == 0 {
        seq![Seq::<char>::empty()]
    } else {
        let rest = split_path(s.drop_last());
        if s.last() == '/' {
            rest.push(Seq::<char>::empty())
        } else {
            rest.update(rest.len() - 1, rest.last().push(s.last()))
        }
    }
}

/// The URL of `endpoint` under the API root serialized as `base`: where the
/// root has path segments, a trailing empty segment is dropped and the
/// pieces of `endpoint` are pushed one by one; otherwise `endpoint` is
/// joined to the root as a relative reference.
pub open spec fn endpoint_url(base: Seq<char>, endpoint: Seq<char>) -> Result<
    Seq<char>,
    url::ParseError,
> {
    if has_path_segments(base) {
        Ok(url_rebuilt_path(base, split_path(endpoint)))
    } else {
        url_join(base, endpoint)
    }
}

/// `r` is the outcome `outcome` with the URL text held in a `String`.
pub open spec fn join_outcome(
    outcome: Result<Seq<char>, url::ParseError>,
    r: Result<String, url::ParseError>,
) -> bool {
    match outcome {
        Ok(t) => r matches Ok(s) && s@ == t,
        Err(e) => r == Err::<String, url::ParseError>(e),
    }
}

/// `r`, except that joining a plain relative `input` to a base without path
/// segments is the error `RelativeUrlWithCannotBeABaseBase`.
pub open spec fn cannot_be_a_base_join(
    base: Seq<char>,
    input: Seq<char>,
    r: Result<String, url::ParseError>,
) -> Result<String, url::ParseError> {
    if !has_path_segments(base) && is_plain_relative(input) {
        Err(url::ParseError::RelativeUrlWithCannotBeABaseBase)
    } else {
        r
    }
}

/// `input` is a reference without a scheme and without a fragment: it holds
/// no `:` and no `#`.
pub open spec fn is_plain_relative(input: Seq<char>) -> bool {
    !input.contains(':') && !input.contains('#')
}

/// The views of a list of strings.
pub open spec fn strings_view(v: Seq<String>) -> Seq<Seq<char>> {
    v.map_values(|s: String| s@)
}

pub proof fn lemma_split_path_nonempty(s: Seq<char>)
    ensures
        split_path(s).len() >= 1,
    decreases s.len(),
{
    if s.len() > 0 {
        lemma_split_path_nonempty(s.drop_last());
    }
}

/// The pieces joined with `/` between them.
pub open spec fn join_path(pieces: Seq<Seq<char>>) -> Seq<char>
    decreases pieces.len(),
{
    if pieces.len() == 0 {
        Seq::<char>::empty()
    } else if pieces.len() == 1 {
        pieces[0]
    } else {
        join_path(pieces.drop_last()) + seq!['/'] + pieces.last()
    }
}

/// The view of a list of strings keeps every string, in order, whole.
pub proof fn lemma_strings_view(v: Seq<String>)
    ensures
        strings_view(v).len() == v.len(),
        forall|i: int| 0 <= i < v.len() ==> #[trigger] strings_view(v)[i] == v[i]@,
{
}

/// How many times `c` occurs in `s`.
pub open spec fn count_char(s: Seq<char>, c: char) -> nat
    decreases s.len(),
{
    if s.len() == 0 {
        0
    } else {
        count_char(s.drop_last(), c) + if s.last() == c {
            1nat
        } else {
            0nat
        }
    }
}

/// The pieces of an endpoint are its maximal runs without `/`: there is one
/// more piece than the endpoint has `/` characters, and no piece holds a `/`.
pub proof fn lemma_split_pieces(s: Seq<char>)
    ensures
        split_path(s).len() == count_char(s, '/') + 1,
        forall|j: int| 0 <= j < split_path(s).len() ==> !(#[trigger] split_path(s)[j]).contains('/'),
    decreases s.len(),
{
    if s.len() > 0 {
        let p = s.drop_last();
        lemma_split_pieces(p);
        lemma_split_path_nonempty(p);
        let rest = split_path(p);
        let r = split_path(s);
        if s.last() == '/' {
            assert forall|j: int| 0 <= j < r.len() implies !(#[trigger] r[j]).contains('/') by {
                if j < rest.len() {
                    assert(r[j] == rest[j]);
                } else {
                    assert(r[j] =~= Seq::<char>::empty());
                }
            }
        } else {
            let n = rest.len() - 1;
            assert forall|j: int| 0 <= j < r.len() implies !(#[trigger] r[j]).contains('/') by {
                if j < n {
                    assert(r[j] == rest[j]);
                } else {
                    let piece = rest[n].push(s.last());
                    assert(r[j] == piece);
                    assert(!rest[n].contains('/'));
                    if piece.contains('/') {
                        let k = choose|k: int| 0 <= k < piece.len() && piece[k] == '/';
                        if k < rest[n].len() {
                            assert(rest[n][k] == '/');
                        }
                    }
                }
            }
        }
    }
}

/// Splitting an endpoint at its slashes loses nothing: joining the pieces
/// with `/` gives back the endpoint.
pub proof fn lemma_split_then_join(s: Seq<char>)
    ensures
        join_path(split_path(s)) == s,
    decreases s.len(),
{
    if s.len() > 0 {
        let p = s.drop_last();
        lemma_split_then_join(p);
        lemma_split_path_nonempty(p);
        let rest = split_path(p);
        if s.last() == '/' {
            let r = rest.push(Seq::<char>::empty());
            assert(r.drop_last() =~= rest);
            assert(join_path(r) =~= p + seq!['/']);
            assert(s =~= p + seq!['/']);
        } else {
            let r = rest.update(rest.len() - 1, rest.last().push(s.last()));
            if rest.len() == 1 {
                assert(join_path(r) == r[0]);
                assert(s =~= p.push(s.last()));
            } else {
                assert(r.drop_last() =~= rest.drop_last());
                assert(join_path(r) == join_path(rest.drop_last()) + seq!['/'] + rest.last().push(
                    s.last(),
                ));
                assert(join_path(rest) == join_path(rest.drop_last()) + seq!['/'] + rest.last());
                assert(join_path(r) =~= join_path(rest).push(s.last()));
                assert(s =~= p.push(s.last()));
            }
        }
    }
}

/// Parses `input` with `url::Url::parse` and hands back the serialization
/// of the result. The contract claims that the outcome is the one named by
/// `url_parse`, and that parsing a freshly parsed URL's text again gives it
/// back (the url crate checks this round trip among the invariants of a
/// parsed `Url`).
#[verifier::external_body]
fn parse_serialization(input: &str) -> (r: Result<String, url::ParseError>)
    ensures
        join_outcome(url_parse(input@), r),
        r matches Ok(s) ==> is_serialization(s@),
{
    url::Url::parse(input).map(String::from)
}

/// Calls `url::Url::path_segments_mut` on the URL serialized as `url` and
/// tells whether it succeeded. The contract claims what the url crate
/// documents: it fails exactly for a URL whose scheme and `:` are not
/// followed by `/`.
/// The URL is rebuilt from its serialization, which parses by `requires`.
#[verifier::external_body]
fn segments_mutable(url: &str) -> (r: bool)
    requires
        is_serialization(url@),
    ensures
        r == has_path_segments(url@),
{
    url::Url::parse(url).unwrap().path_segments_mut().is_ok()
}

/// On the URL serialized as `url`, takes one `url::PathSegmentsMut` and
/// calls `pop_if_empty` and then `extend(segments)` on it, as one pushes the
/// segments one by one. The contract claims that the result is named by
/// `url_rebuilt_path`; it need not parse back to itself (after a pop, a
/// non-special URL may keep a `/.` prefix the parser would drop). It also
/// claims what `pop_if_empty` is documented to do: it removes the one `/`
/// that ends a non-empty path, so a root whose path ends that way gives the
/// result of the same root without that `/` (whose path `pop_if_empty`
/// leaves alone). The query and fragment are set aside by
/// `PathSegmentsMut` and put back after the path, so they do not matter.
/// The URL is rebuilt from its serialization, which parses by `requires`.
#[verifier::external_body]
fn rebuild_path(url: &str, segments: &Vec<String>) -> (r: String)
    requires
        is_serialization(url@),
        has_path_segments(url@),
    ensures
        r@ == url_rebuilt_path(url@, strings_view(segments@)),
        has_trailing_slash(url@) && is_serialization(without_trailing_slash(url@)) ==> r@
            == url_rebuilt_path(without_trailing_slash(url@), strings_view(segments@)),
{
    let mut parsed = url::Url::parse(url).unwrap();
    parsed.path_segments_mut().unwrap().pop_if_empty().extend(segments);
    parsed.into()
}

/// Calls `url::Url::join(input)` on the URL serialized as `base`. The
/// contract claims that the outcome is named by `url_join`, and what the
/// parser's source shows for an input with no scheme (no `:`) and no `#`
/// against a base that cannot be a base: the error
/// `RelativeUrlWithCannotBeABaseBase`.
/// The URL is rebuilt from its serialization, which parses by `requires`.
#[verifier::external_body]
fn join(base: &str, input: &str) -> (r: Result<String, url::ParseError>)
    requires
        is_serialization(base@),
    ensures
        join_outcome(url_join(base@, input@), r),
        r == cannot_be_a_base_join(base@, input@, r),
{
    url::Url::parse(base).unwrap().join(input).map(String::from)
}

/// Writes the URL serialized as `url` with `Debug` of `url::Url`.
/// The URL is rebuilt from its serialization, which parses by `requires`.
#[verifier::external_body]
fn debug_text(url: &str) -> (r: String)
    requires
        is_serialization(url@),
    ensures
        r@ == url_debug(url@),
{
    format!("{:?}", url::Url::parse(url).unwrap())
}

/// Appends `c` to `s` (std's `String::push`).
#[verifier::external_body]
fn push_char(s: &mut String, c: char)
    ensures
        final(s)@ == old(s)@.push(c),
{
    s.push(c)
}

/// An absolute URL, held as its serialization.
#[derive(Debug)]
pub struct Url {
    serialization: String,
}

impl View for Url {
    type V = Seq<char>;

    closed spec fn view(&self) -> Seq<char> {
        self.serialization@
    }
}

impl Url {
    #[verifier::type_invariant]
    spec fn inv(self) -> bool {
        is_serialization(self.serialization@)
    }

    /// Parses an absolute URL.
    pub fn parse(input: &str) -> (r: Result<Url, url::ParseError>)
        ensures
            match url_parse(input@) {
                Ok(t) => r matches Ok(u) && u@ == t,
                Err(e) => r matches Err(x) && x == e,
            },
            r matches Ok(u) ==> is_serialization(u@),
    {
        match parse_serialization(input) {
            Ok(s) => Ok(Url { serialization: s }),
            Err(e) => Err(e),
        }
    }

    /// The serialization of this URL.
    pub fn as_str(&self) -> (r: &str)
        ensures
            r@ == self@,
            is_serialization(self@),
    {
        proof {
            use_type_invariant(self);
        }
        self.serialization.as_str()
    }

    /// A copy of this URL.
    pub fn duplicate(&self) -> (r: Url)
        ensures
            r@ == self@,
    {
        proof {
            use_type_invariant(self);
        }
        Url { serialization: self.serialization.clone() }
    }

    /// What `Debug` of `url::Url` writes for this URL.
    pub fn debug_string(&self) -> (r: String)
        ensures
            r@ == url_debug(self@),
    {
        proof {
            use_type_invariant(self);
        }
        debug_text(self.serialization.as_str())
    }

    /// Whether the path of this URL can be split into segments.
    pub fn has_path_segments(&self) -> (r: bool)
        ensures
            r == has_path_segments(self@),
    {
        proof {
            use_type_invariant(self);
        }
        segments_mutable(self.serialization.as_str())
    }

    /// The URL of `endpoint` under this URL as API root; fails where the
    /// root has no path segments and `endpoint` cannot be joined to it.
    pub fn endpoint(&self, endpoint: &str) -> (r: Result<EndpointUrl, url::ParseError>)
        ensures
            match endpoint_url(self@, endpoint@) {
                Ok(t) => r matches Ok(u) && u@ == t,
                Err(e) => r matches Err(x) && x == e,
            },
            !has_path_segments(self@) && is_plain_relative(endpoint@) ==> (r matches Err(x)
                && x == url::ParseError::RelativeUrlWithCannotBeABaseBase),
            has_trailing_slash(self@) && is_serialization(without_trailing_slash(self@))
                ==> endpoint_url(self@, endpoint@) == endpoint_url(
                without_trailing_slash(self@),
                endpoint@,
            ),
    {
        proof {
            use_type_invariant(self);
        }
        if !segments_mutable(self.serialization.as_str()) {
            return match join(self.serialization.as_str(), endpoint) {
                Ok(s) => Ok(EndpointUrl { text: s }),
                Err(e) => Err(e),
            };
        }
        let pieces = split_endpoint(endpoint);
        assert(strings_view(pieces@) =~= split_path(endpoint@));
        let text = rebuild_path(self.serialization.as_str(), &pieces);
        proof {
            if has_trailing_slash(self@) {
                lemma_trailing_slash_segments(self@);
            }
        }
        Ok(EndpointUrl { text })
    }
}

/// The URL of an endpoint, as the url crate serialized it.
#[derive(Debug)]
pub struct EndpointUrl {
    text: String,
}

impl View for EndpointUrl {
    type V = Seq<char>;

    closed spec fn view(&self) -> Seq<char> {
        self.text@
    }
}

impl EndpointUrl {
    /// The text of this URL.
    pub fn as_str(&self) -> (r: &str)
        ensures
            r@ == self@,
    {
        self.text.as_str()
    }
}

/// Splits `endpoint` at its `/` characters, as `str::split('/')` does.
pub fn split_endpoint(endpoint: &str) -> (r: Vec<String>)
    ensures
        r@.len() == split_path(endpoint@).len(),
        forall|j: int| 0 <= j < r@.len() ==> #[trigger] r@[j]@ == split_path(endpoint@)[j],
{
    let mut done: Vec<String> = Vec::new();
    let mut piece = String::new();
    let ghost text = endpoint@;
    for c in it: endpoint.chars()
        invariant
            it.seq() == text,
            split_path(text.take(it.index())).len() == done@.len() + 1,
            forall|j: int|
                0 <= j < done@.len() ==> #[trigger] done@[j]@ == split_path(text.take(it.index()))[j],
            piece@ == split_path(text.take(it.index()))[done@.len() as int],
    {
        let ghost k = it.index();
        proof {
            assert(text.take(k + 1).drop_last() =~= text.take(k));
            assert(text.take(k + 1).last() == c);
            lemma_split_path_nonempty(text.take(k));
        }
        if c == '/' {
            let finished = piece;
            done.push(finished);
            piece = String::new();
        } else {
            push_char(&mut piece, c);
        }
    }
    proof {
        assert(text.take(text.len() as int) =~= text);
    }
    done.push(piece);
    done
}

} // verus!
