//! Docker names of a project, and the ADB endpoint of its Android runtime.
use crate::scan::{
    is_white, join, join_exec, lemma_join_concat, lemma_words_content, lemma_words_join,
    lemma_words_none, lemma_words_one, lower, lower_char, lower_char_exec, word_bounds, words,
    words_are_parted_by_white_space,
};
use crate::text::{chars_of, concat2, concat3, debug_string, debug_text, text_between, texts};
use vstd::prelude::*;

verus! {

pub const DEFAULT_PROJECT_ID: &'static str = "docker-git";

/// Whether `c` is an ASCII letter or digit.
pub open spec fn is_alphanumeric(c: char) -> bool {
    'a' <= c <= 'z' || 'A' <= c <= 'Z' || '0' <= c <= '9'
}

/// An ASCII letter or digit in lower case; a blank for any other character.
pub open spec fn name_char(c: char) -> char {
    if is_alphanumeric(c) {
        lower_char(c)
    } else {
        ' '
    }
}

/// The words of a project id: its runs of ASCII letters and digits, in lower case.
pub open spec fn project_words(raw: Seq<char>) -> Seq<Seq<char>> {
    words(raw.map_values(|c: char| name_char(c)))
}

/// The Docker-safe form of a project id: its words with a dash between each two of them, or
/// the default id where it has none.
pub open spec fn normalized(raw: Seq<char>) -> Seq<char> {
    if project_words(raw).len() == 0 {
        DEFAULT_PROJECT_ID@
    } else {
        join(project_words(raw), seq!['-'])
    }
}

/// Brings a project id from outside into a form that Docker accepts as a name.
#[must_use]
pub fn normalize_project_id(raw: &str) -> (id: String)
    ensures
        id@ == normalized(raw@),
{
    let chars = chars_of(raw);
    let mut folded: Vec<char> = Vec::new();
    for i in 0..chars.len()
        invariant
            chars@ == raw@,
            folded@ =~= raw@.map_values(|c: char| name_char(c)).take(i as int),
    {
        let c = chars[i];
        if ('a' <= c && c <= 'z') || ('A' <= c && c <= 'Z') || ('0' <= c && c <= '9') {
            folded.push(lower_char_exec(c));
        } else {
            folded.push(' ');
        }
    }
    assert(folded@ =~= raw@.map_values(|c: char| name_char(c)));
    assert(folded@.subrange(0, folded@.len() as int) =~= folded@);
    let bounds = word_bounds(&folded, 0, folded.len());
    if bounds.len() == 0 {
        return DEFAULT_PROJECT_ID.to_string();
    }
    let mut parts: Vec<String> = Vec::new();
    for i in 0..bounds.len()
        invariant
            bounds@.len() == project_words(raw@).len(),
            forall|k: int|
                0 <= k < bounds@.len() ==> (#[trigger] bounds@[k]).0 <= bounds@[k].1
                    <= folded@.len() && folded@.subrange(bounds@[k].0 as int, bounds@[k].1 as int)
                    == project_words(raw@)[k],
            texts(parts@) =~= project_words(raw@).take(i as int),
    {
        let (from, to) = bounds[i];
        let ghost before = parts@;
        parts.push(text_between(&folded, from, to));
        assert(texts(parts@) =~= texts(before).push(project_words(raw@)[i as int]));
    }
    assert(texts(parts@) =~= project_words(raw@));
    let id = join_exec(&parts, "-");
    proof {
        reveal_strlit("-");
        assert("-"@ =~= seq!['-']);
    }
    id
}


/// What a project id may be once it is normalized: not empty, and made of `a` to `z`, `0` to
/// `9` and dashes that stand alone between two of the others.
pub open spec fn is_docker_name(id: Seq<char>) -> bool {
    &&& id.len() > 0
    &&& forall|i: int|
        0 <= i < id.len() ==> ('a' <= #[trigger] id[i] <= 'z' || '0' <= id[i] <= '9' || id[i] == '-')
    &&& id[0] != '-'
    &&& id.last() != '-'
    &&& forall|i: int|
        0 <= i < id.len() - 1 && (#[trigger] id[i]) == '-' ==> id[i + 1] != '-'
}

/// The words of a normalized id: not empty, of lower case letters and digits.
spec fn is_name_words(parts: Seq<Seq<char>>) -> bool {
    &&& forall|i: int| 0 <= i < parts.len() ==> (#[trigger] parts[i]).len() > 0
    &&& forall|i: int, k: int|
        0 <= i < parts.len() && 0 <= k < parts[i].len() ==> ('a' <= #[trigger] parts[i][k] <= 'z'
            || '0' <= parts[i][k] <= '9')
}

proof fn lemma_project_words(raw: Seq<char>)
    ensures
        is_name_words(project_words(raw)),
{
    let folded = raw.map_values(|c: char| name_char(c));
    lemma_words_content(folded);
    let parts = project_words(raw);
    assert forall|i: int, k: int| 0 <= i < parts.len() && 0 <= k < parts[i].len() implies ('a'
        <= #[trigger] parts[i][k] <= 'z' || '0' <= parts[i][k] <= '9') by {
        let c = parts[i][k];
        assert(folded.contains(c) && !is_white(c));
        let at = choose|at: int| 0 <= at < folded.len() && folded[at] == c;
        assert(c == name_char(raw[at]));
    }
}

proof fn lemma_join_docker_name(parts: Seq<Seq<char>>)
    requires
        parts.len() > 0,
        is_name_words(parts),
    ensures
        is_docker_name(join(parts, seq!['-'])),
    decreases parts.len(),
{
    let id = join(parts, seq!['-']);
    if parts.len() == 1 {
        assert forall|i: int| 0 <= i < id.len() implies ('a' <= #[trigger] id[i] <= 'z' || '0'
            <= id[i] <= '9') by {
            assert(id[i] == parts[0][i]);
        }
        assert('a' <= parts[0][id.len() - 1] <= 'z' || '0' <= parts[0][id.len() - 1] <= '9');
    } else {
        let front = parts.drop_last();
        assert forall|i: int| 0 <= i < front.len() implies (#[trigger] front[i]).len() > 0 by {
            assert(front[i] == parts[i]);
        }
        assert forall|i: int, k: int| 0 <= i < front.len() && 0 <= k < front[i].len() implies ('a'
            <= #[trigger] front[i][k] <= 'z' || '0' <= front[i][k] <= '9') by {
            assert(front[i][k] == parts[i][k]);
        }
        lemma_join_docker_name(front);
        let head = join(front, seq!['-']);
        let tail = parts.last();
        let n = head.len();
        assert(id =~= head + seq!['-'] + tail);
        assert forall|k: int| 0 <= k < tail.len() implies ('a' <= #[trigger] tail[k] <= 'z' || '0'
            <= tail[k] <= '9') by {
            assert(tail[k] == parts[parts.len() - 1][k]);
        }
        assert forall|i: int| 0 <= i < id.len() implies ('a' <= #[trigger] id[i] <= 'z' || '0'
            <= id[i] <= '9' || id[i] == '-') by {
            if i < n {
                assert(id[i] == head[i]);
            } else if i > n {
                assert(id[i] == tail[i - n - 1]);
            }
        }
        assert(id[0] == head[0]);
        assert(id.last() == tail[tail.len() - 1]);
        assert forall|i: int| 0 <= i < id.len() - 1 && (#[trigger] id[i]) == '-' implies id[i + 1]
            != '-' by {
            if i < n - 1 {
                assert(id[i] == head[i] && id[i + 1] == head[i + 1]);
            } else if i == n - 1 {
                assert(id[i] == head[i]);
            } else if i == n {
                assert(id[i + 1] == tail[0]);
            } else {
                assert(id[i] == tail[i - n - 1]);
            }
        }
    }
}

/// A normalized project id is a Docker-safe name, whatever the text that it was made from.
pub proof fn normalized_is_docker_name(raw: Seq<char>)
    ensures
        is_docker_name(normalized(raw)),
{
    lemma_project_words(raw);
    if project_words(raw).len() == 0 {
        reveal_strlit("docker-git");
        assert(is_docker_name(DEFAULT_PROJECT_ID@));
    } else {
        lemma_join_docker_name(project_words(raw));
    }
}

proof fn lemma_fold_join(parts: Seq<Seq<char>>)
    requires
        is_name_words(parts),
    ensures
        join(parts, seq!['-']).map_values(|c: char| name_char(c)) == join(parts, seq![' ']),
    decreases parts.len(),
{
    let id = join(parts, seq!['-']);
    let folded = id.map_values(|c: char| name_char(c));
    if parts.len() == 0 {
        assert(folded =~= join(parts, seq![' ']));
    } else if parts.len() == 1 {
        assert forall|i: int| 0 <= i < id.len() implies #[trigger] folded[i] == id[i] by {
            assert(id[i] == parts[0][i]);
        }
        assert(folded =~= join(parts, seq![' ']));
    } else {
        let front = parts.drop_last();
        assert forall|i: int| 0 <= i < front.len() implies (#[trigger] front[i]).len() > 0 by {
            assert(front[i] == parts[i]);
        }
        assert forall|i: int, k: int| 0 <= i < front.len() && 0 <= k < front[i].len() implies ('a'
            <= #[trigger] front[i][k] <= 'z' || '0' <= front[i][k] <= '9') by {
            assert(front[i][k] == parts[i][k]);
        }
        lemma_fold_join(front);
        let head = join(front, seq!['-']);
        let tail = parts.last();
        assert(tail.map_values(|c: char| name_char(c)) =~= tail) by {
            assert forall|k: int| 0 <= k < tail.len() implies name_char(#[trigger] tail[k])
                == tail[k] by {
                assert(tail[k] == parts[parts.len() - 1][k]);
            }
        }
        assert(folded =~= head.map_values(|c: char| name_char(c)) + seq![' '] + tail);
    }
}

/// Normalizing a normalized project id changes nothing.
pub proof fn normalizing_is_idempotent(raw: Seq<char>)
    ensures
        normalized(normalized(raw)) == normalized(raw),
{
    let parts = project_words(raw);
    lemma_project_words(raw);
    if parts.len() > 0 {
        lemma_fold_join(parts);
        assert forall|i: int, k: int| 0 <= i < parts.len() && 0 <= k < parts[i].len() implies !is_white(
            #[trigger] parts[i][k],
        ) by {}
        lemma_words_join(parts, ' ');
    } else {
        reveal_strlit("docker-git");
        let first = seq!['d', 'o', 'c', 'k', 'e', 'r'];
        let second = seq!['g', 'i', 't'];
        let default_parts = seq![first, second];
        assert(default_parts.drop_last() =~= seq![first]);
        assert(join(seq![first], seq!['-']) == first);
        assert(join(default_parts, seq!['-']) =~= DEFAULT_PROJECT_ID@);
        assert(is_name_words(default_parts));
        lemma_fold_join(default_parts);
        assert forall|i: int, k: int|
            0 <= i < default_parts.len() && 0 <= k < default_parts[i].len() implies !is_white(
            #[trigger] default_parts[i][k],
        ) by {}
        lemma_words_join(default_parts, ' ');
    }
}


/// The name of the Android container of a project.
pub open spec fn container_name(project_id: Seq<char>) -> Seq<char> {
    normalized(project_id) + "-android"@
}

/// The name of the Docker volume of the Android container of a project.
pub open spec fn volume_name(project_id: Seq<char>) -> Seq<char> {
    normalized(project_id) + "-home-android"@
}

#[must_use]
pub fn android_container_name(project_id: &str) -> (name: String)
    ensures
        name@ == container_name(project_id@),
{
    concat2(normalize_project_id(project_id).as_str(), "-android")
}

#[must_use]
pub fn android_volume_name(project_id: &str) -> (name: String)
    ensures
        name@ == volume_name(project_id@),
{
    concat2(normalize_project_id(project_id).as_str(), "-home-android")
}

/// The characters that an ADB endpoint may hold.
pub open spec fn is_endpoint_char(c: char) -> bool {
    is_alphanumeric(c) || c == '.' || c == '-' || c == '_' || c == ':'
}

/// An ADB endpoint that can stand in a command: at most 255 characters of the allowed ones, a
/// colon among them.
pub open spec fn is_safe_endpoint(value: Seq<char>) -> bool {
    &&& value.len() <= 255
    &&& value.contains(':')
    &&& forall|i: int| 0 <= i < value.len() ==> is_endpoint_char(#[trigger] value[i])
}

#[must_use]
pub fn is_safe_adb_endpoint(value: &str) -> (safe: bool)
    ensures
        safe == is_safe_endpoint(value@),
{
    let chars = chars_of(value);
    if chars.len() > 255 {
        return false;
    }
    let mut colon: bool = false;
    for i in 0..chars.len()
        invariant
            chars@ == value@,
            colon == value@.take(i as int).contains(':'),
            forall|k: int| 0 <= k < i ==> is_endpoint_char(#[trigger] value@[k]),
    {
        let c = chars[i];
        if !(('a' <= c && c <= 'z') || ('A' <= c && c <= 'Z') || ('0' <= c && c <= '9') || c == '.'
            || c == '-' || c == '_' || c == ':') {
            assert(!is_endpoint_char(value@[i as int]));
            return false;
        }
        proof {
            let longer = value@.take(i + 1);
            assert(longer =~= value@.take(i as int).push(c));
            if colon {
                let at = choose|at: int| 0 <= at < i && value@.take(i as int)[at] == ':';
                assert(longer[at] == ':');
            } else if c == ':' {
                assert(longer[i as int] == ':');
            } else if longer.contains(':') {
                let at = choose|at: int| 0 <= at < longer.len() && longer[at] == ':';
                assert(value@.take(i as int)[at] == ':');
            }
        }
        if c == ':' {
            colon = true;
        }
    }
    assert(value@.take(value@.len() as int) =~= value@);
    colon
}

/// An ADB endpoint that was refused.
#[derive(Clone, Debug, Eq, PartialEq)]
pub struct EndpointError {
    pub value: String,
}

/// What is said of a refused endpoint.
pub open spec fn endpoint_error_text(value: Seq<char>) -> Seq<char> {
    "invalid ADB endpoint "@ + debug_text(value)
        + "; allowed characters are ASCII letters, digits, '.', '-', '_' and ':'"@
}

impl EndpointError {
    /// The message for a reader.
    pub fn message(&self) -> (text: String)
        ensures
            text@ == endpoint_error_text(self.value@),
    {
        concat3(
            "invalid ADB endpoint ",
            debug_string(self.value.as_str()).as_str(),
            "; allowed characters are ASCII letters, digits, '.', '-', '_' and ':'",
        )
    }
}

pub fn validate_adb_endpoint(value: &str) -> (endpoint: Result<String, EndpointError>)
    ensures
        match endpoint {
            Ok(endpoint) => is_safe_endpoint(value@) && endpoint@ == value@,
            Err(error) => !is_safe_endpoint(value@) && error.value@ == value@,
        },
{
    if is_safe_adb_endpoint(value) {
        Ok(value.to_string())
    } else {
        Err(EndpointError { value: value.to_string() })
    }
}

/// The names and settings of the Android runtime of one project.
#[derive(Clone, Debug, Eq, PartialEq)]
pub struct AndroidSpec {
    pub project_id: String,
    pub project_container_name: String,
    pub android_container_name: String,
    pub android_volume_name: String,
    pub docker_network: String,
    pub adb_endpoint: String,
    pub image: String,
}

/// What a spec holds.
#[verifier::ext_equal]
pub struct SpecView {
    pub project_id: Seq<char>,
    pub project_container_name: Seq<char>,
    pub android_container_name: Seq<char>,
    pub android_volume_name: Seq<char>,
    pub docker_network: Seq<char>,
    pub adb_endpoint: Seq<char>,
    pub image: Seq<char>,
}

impl View for AndroidSpec {
    type V = SpecView;

    open spec fn view(&self) -> SpecView {
        SpecView {
            project_id: self.project_id@,
            project_container_name: self.project_container_name@,
            android_container_name: self.android_container_name@,
            android_volume_name: self.android_volume_name@,
            docker_network: self.docker_network@,
            adb_endpoint: self.adb_endpoint@,
            image: self.image@,
        }
    }
}

/// The spec that the four settings call for.
pub open spec fn spec_of(
    project_id: Seq<char>,
    docker_network: Seq<char>,
    adb_endpoint: Seq<char>,
    image: Seq<char>,
) -> SpecView {
    SpecView {
        project_id: normalized(project_id),
        project_container_name: normalized(project_id),
        android_container_name: container_name(project_id),
        android_volume_name: volume_name(project_id),
        docker_network,
        adb_endpoint,
        image,
    }
}

pub fn android_spec(project_id: &str, docker_network: &str, adb_endpoint: &str, image: &str) -> (spec:
    Result<AndroidSpec, EndpointError>)
    ensures
        match spec {
            Ok(spec) => is_safe_endpoint(adb_endpoint@) && spec@ == spec_of(
                project_id@,
                docker_network@,
                adb_endpoint@,
                image@,
            ),
            Err(error) => !is_safe_endpoint(adb_endpoint@) && error.value@ == adb_endpoint@,
        },
{
    let id = normalize_project_id(project_id);
    proof {
        normalizing_is_idempotent(project_id@);
    }
    let android_container_name = android_container_name(id.as_str());
    let android_volume_name = android_volume_name(id.as_str());
    match validate_adb_endpoint(adb_endpoint) {
        Ok(endpoint) => Ok(
            AndroidSpec {
                project_id: id.clone(),
                project_container_name: id,
                android_container_name,
                android_volume_name,
                docker_network: docker_network.to_string(),
                adb_endpoint: endpoint,
                image: image.to_string(),
            },
        ),
        Err(error) => Err(error),
    }
}

/// Two projects share an Android container, or its volume, only if they share the normalized
/// id.
pub proof fn names_tell_projects_apart(left: Seq<char>, right: Seq<char>)
    ensures
        container_name(left) == container_name(right) <==> normalized(left) == normalized(right),
        volume_name(left) == volume_name(right) <==> normalized(left) == normalized(right),
        container_name(left) != volume_name(left),
{
    let a = normalized(left);
    let b = normalized(right);
    reveal_strlit("-android");
    reveal_strlit("-home-android");
    assert(container_name(left).len() == a.len() + 8);
    assert(container_name(right).len() == b.len() + 8);
    assert(volume_name(left).len() == a.len() + 13);
    assert(volume_name(right).len() == b.len() + 13);
    if container_name(left) == container_name(right) {
        assert(a =~= container_name(left).take(a.len() as int));
        assert(b =~= container_name(right).take(b.len() as int));
    }
    if volume_name(left) == volume_name(right) {
        assert(a =~= volume_name(left).take(a.len() as int));
        assert(b =~= volume_name(right).take(b.len() as int));
    }
}

/// Whether a letter or a digit stands in a text, of those that Docker takes in a name.
pub open spec fn has_name_char(text: Seq<char>) -> bool {
    exists|i: int|
        0 <= i < text.len() && ('a' <= #[trigger] text[i] <= 'z' || 'A' <= text[i] <= 'Z' || '0'
            <= text[i] <= '9')
}

proof fn lemma_has_words(raw: Seq<char>)
    ensures
        project_words(raw).len() > 0 <==> has_name_char(raw),
{
    let folded = raw.map_values(|c: char| name_char(c));
    lemma_words_none(folded);
    if has_name_char(raw) {
        let i = choose|i: int|
            0 <= i < raw.len() && ('a' <= #[trigger] raw[i] <= 'z' || 'A' <= raw[i] <= 'Z' || '0'
                <= raw[i] <= '9');
        assert(!is_white(folded[i]));
    } else {
        assert forall|k: int| 0 <= k < folded.len() implies is_white(#[trigger] folded[k]) by {
            assert(folded[k] == name_char(raw[k]));
            assert(!is_alphanumeric(raw[k]));
        }
    }
}

/// A project id of ASCII letters and digits is kept, in lower case. Any other character parts what
/// stands before it from what stands after it, which are joined by one dash. An id without any
/// letter or digit is the default one.
pub proof fn ids_keep_their_letters_and_digits(before: Seq<char>, other: char, after: Seq<char>)
    requires
        !('a' <= other <= 'z' || 'A' <= other <= 'Z' || '0' <= other <= '9'),
    ensures
        ({
            let whole = normalized(before + seq![other] + after);
            &&& has_name_char(before) && has_name_char(after) ==> whole == normalized(before)
                + seq!['-'] + normalized(after)
            &&& !has_name_char(before) ==> whole == normalized(after)
            &&& !has_name_char(after) ==> whole == normalized(before)
        }),
        !has_name_char(before) ==> normalized(before) == "docker-git"@,
        before.len() > 0 && (forall|i: int|
            0 <= i < before.len() ==> ('a' <= #[trigger] before[i] <= 'z' || 'A' <= before[i] <= 'Z'
                || '0' <= before[i] <= '9')) ==> normalized(before) == lower(before),
{
    let raw = before + seq![other] + after;
    let fold = |text: Seq<char>| text.map_values(|c: char| name_char(c));
    lemma_has_words(before);
    lemma_has_words(after);
    lemma_has_words(raw);
    words_are_parted_by_white_space(fold(before), ' ', fold(after));
    assert(fold(raw) =~= fold(before) + seq![' '] + fold(after));
    let first = project_words(before);
    let second = project_words(after);
    assert(project_words(raw) == first + second);
    if first.len() > 0 && second.len() > 0 {
        lemma_join_concat(first, second, seq!['-']);
    }
    if first.len() == 0 {
        assert(first + second =~= second);
    }
    if second.len() == 0 {
        assert(first + second =~= first);
    }
    if before.len() > 0 && (forall|i: int|
        0 <= i < before.len() ==> ('a' <= #[trigger] before[i] <= 'z' || 'A' <= before[i] <= 'Z'
            || '0' <= before[i] <= '9')) {
        assert(fold(before) =~= lower(before));
        assert forall|k: int| 0 <= k < fold(before).len() implies !is_white(
            #[trigger] fold(before)[k],
        ) by {
            assert(fold(before)[k] == lower_char(before[k]));
        }
        lemma_words_one(fold(before));
        assert(join(seq![fold(before)], seq!['-']) == fold(before));
    }
}

/// The containers and the volume of a project are named after its normalized id.
pub proof fn names_are_made_of_the_id(
    project: Seq<char>,
    network: Seq<char>,
    endpoint: Seq<char>,
    image: Seq<char>,
)
    ensures
        ({
            let spec = spec_of(project, network, endpoint, image);
            &&& spec.project_id == normalized(project)
            &&& spec.project_container_name == normalized(project)
            &&& spec.android_container_name == normalized(project) + "-android"@
            &&& spec.android_volume_name == normalized(project) + "-home-android"@
            &&& spec.docker_network == network
            &&& spec.adb_endpoint == endpoint
            &&& spec.image == image
        }),
{
}

/// An endpoint is safe exactly where it has at most 255 characters, a colon among them, and none
/// but ASCII letters, digits, dots, dashes, underscores and colons. One that is not is named in
/// what is said of it.
pub proof fn safe_endpoints_hold_nothing_for_a_shell(value: Seq<char>)
    ensures
        is_safe_endpoint(value) <==> value.len() <= 255 && value.contains(':') && forall|i: int|
            0 <= i < value.len() ==> ('a' <= #[trigger] value[i] <= 'z' || 'A' <= value[i] <= 'Z'
                || '0' <= value[i] <= '9' || value[i] == '.' || value[i] == '-' || value[i] == '_'
                || value[i] == ':'),
        endpoint_error_text(value) == "invalid ADB endpoint "@ + debug_text(value)
            + "; allowed characters are ASCII letters, digits, '.', '-', '_' and ':'"@,
{
    if is_safe_endpoint(value) {
        assert forall|i: int| 0 <= i < value.len() implies ('a' <= #[trigger] value[i] <= 'z' || 'A'
            <= value[i] <= 'Z' || '0' <= value[i] <= '9' || value[i] == '.' || value[i] == '-'
            || value[i] == '_' || value[i] == ':') by {
            assert(is_endpoint_char(value[i]));
        }
    }
}

/// A spec is seen as it is: each part by its own name.
pub proof fn specs_are_seen_as_they_are(spec: AndroidSpec)
    ensures
        spec@.project_id == spec.project_id@,
        spec@.project_container_name == spec.project_container_name@,
        spec@.android_container_name == spec.android_container_name@,
        spec@.android_volume_name == spec.android_volume_name@,
        spec@.docker_network == spec.docker_network@,
        spec@.adb_endpoint == spec.adb_endpoint@,
        spec@.image == spec.image@,
{
}

} // verus!
