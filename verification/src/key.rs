//! Keys: slash-separated paths that name a topic or a datalog entry.

use vstd::prelude::*;
use crate::value::strings_model;

verus! {

/// A path: the ordered segments between the separators.
#[derive(Debug, Hash, PartialEq, Eq)]
pub struct EnokiKey {
    path: Vec<String>,
}

/// `/` separates segments, and `:` is read as `/`.
pub open spec fn is_separator(c: char) -> bool {
    c == '/' || c == ':'
}

/// The text cut at every separator. There is always at least one part, and
/// a part is empty where two separators meet or the text starts or ends
/// with one.
pub open spec fn split_path(s: Seq<char>) -> Seq<Seq<char>>
    decreases s.len(),
{
    if s.len() == 0 {
        seq![Seq::<char>::empty()]
    } else {
        let parts = split_path(s.drop_last());
        if is_separator(s.last()) {
            parts.push(Seq::<char>::empty())
        } else {
            parts.update(parts.len() - 1, parts.last().push(s.last()))
        }
    }
}

/// The first part whatever it holds, and each later part that is not empty.
pub open spec fn kept_parts(parts: Seq<Seq<char>>) -> Seq<Seq<char>>
    decreases parts.len(),
{
    if parts.len() == 0 {
        Seq::<Seq<char>>::empty()
    } else if parts.len() == 1 {
        seq![parts[0]]
    } else {
        let before = kept_parts(parts.drop_last());
        if parts.last().len() > 0 {
            before.push(parts.last())
        } else {
            before
        }
    }
}

/// The segments of the key that a text names. An empty segment stays only
/// at the front, where it marks a path that starts at the root.
pub open spec fn key_segments(s: Seq<char>) -> Seq<Seq<char>> {
    kept_parts(split_path(s))
}

/// The segments joined by `/`.
pub open spec fn join_segments(segments: Seq<Seq<char>>) -> Seq<char>
    decreases segments.len(),
{
    if segments.len() == 0 {
        Seq::<char>::empty()
    } else if segments.len() == 1 {
        segments[0]
    } else {
        join_segments(segments.drop_last()) + seq!['/'] + segments.last()
    }
}

/// No separator stands in the text.
pub open spec fn plain(text: Seq<char>) -> bool {
    forall|i: int| 0 <= i < text.len() ==> !is_separator(#[trigger] text[i])
}

/// Segments as a parsed text gives them: at least one, none with a
/// separator in it, and none empty but perhaps the first.
pub open spec fn well_formed(segments: Seq<Seq<char>>) -> bool {
    &&& segments.len() >= 1
    &&& forall|i: int| 0 <= i < segments.len() ==> plain(#[trigger] segments[i])
    &&& forall|i: int| 1 <= i < segments.len() ==> (#[trigger] segments[i]).len() > 0
}

proof fn lemma_split_plain(text: Seq<char>)
    requires
        plain(text),
    ensures
        split_path(text) == seq![text],
    decreases text.len(),
{
    if text.len() == 0 {
        assert(text =~= Seq::<char>::empty());
    } else {
        let shorter = text.drop_last();
        assert forall|i: int| 0 <= i < shorter.len() implies !is_separator(
            #[trigger] shorter[i],
        ) by {
            assert(shorter[i] == text[i]);
        }
        lemma_split_plain(shorter);
        assert(!is_separator(text[text.len() - 1]));
        assert(shorter.push(text.last()) =~= text);
        assert(seq![shorter].update(0, shorter.push(text.last())) =~= seq![text]);
    }
}

proof fn lemma_split_after_separator(head: Seq<char>, tail: Seq<char>)
    requires
        plain(tail),
    ensures
        split_path(head + seq!['/'] + tail) == split_path(head).push(tail),
    decreases tail.len(),
{
    let whole = head + seq!['/'] + tail;
    lemma_split_nonempty(head);
    if tail.len() == 0 {
        assert(whole.drop_last() =~= head);
        assert(whole.last() == '/');
        assert(tail =~= Seq::<char>::empty());
    } else {
        let shorter = tail.drop_last();
        assert forall|i: int| 0 <= i < shorter.len() implies !is_separator(
            #[trigger] shorter[i],
        ) by {
            assert(shorter[i] == tail[i]);
        }
        lemma_split_after_separator(head, shorter);
        assert(whole.drop_last() =~= head + seq!['/'] + shorter);
        assert(whole.last() == tail.last());
        assert(!is_separator(tail[tail.len() - 1]));
        let parts = split_path(head).push(shorter);
        assert(shorter.push(tail.last()) =~= tail);
        assert(parts.update(parts.len() - 1, parts.last().push(tail.last())) =~= split_path(
            head,
        ).push(tail));
    }
}

/// Parsing the text of well-formed segments gives the segments back.
pub proof fn lemma_key_roundtrip(segments: Seq<Seq<char>>)
    requires
        well_formed(segments),
    ensures
        split_path(join_segments(segments)) == segments,
        key_segments(join_segments(segments)) == segments,
    decreases segments.len(),
{
    if segments.len() == 1 {
        lemma_split_plain(segments[0]);
        assert(seq![segments[0]] =~= segments);
    } else {
        let earlier = segments.drop_last();
        assert(well_formed(earlier)) by {
            assert forall|i: int| 0 <= i < earlier.len() implies plain(#[trigger] earlier[i]) by {
                assert(earlier[i] == segments[i]);
            }
            assert forall|i: int| 1 <= i < earlier.len() implies (#[trigger] earlier[i]).len()
                > 0 by {
                assert(earlier[i] == segments[i]);
            }
        }
        lemma_key_roundtrip(earlier);
        assert(plain(segments[segments.len() - 1]));
        lemma_split_after_separator(join_segments(earlier), segments.last());
        assert(earlier.push(segments.last()) =~= segments);
        assert(segments[segments.len() - 1].len() > 0);
    }
}

/// The segments of a parsed text are well formed.
pub proof fn lemma_parsed_well_formed(text: Seq<char>)
    ensures
        well_formed(key_segments(text)),
{
    lemma_split_parts_plain(text);
    lemma_split_nonempty(text);
    lemma_kept_well_formed(split_path(text));
}

proof fn lemma_split_parts_plain(text: Seq<char>)
    ensures
        forall|i: int| 0 <= i < split_path(text).len() ==> plain(#[trigger] split_path(text)[i]),
    decreases text.len(),
{
    if text.len() > 0 {
        lemma_split_parts_plain(text.drop_last());
        lemma_split_nonempty(text.drop_last());
        let parts = split_path(text.drop_last());
        assert forall|i: int| 0 <= i < split_path(text).len() implies plain(
            #[trigger] split_path(text)[i],
        ) by {
            if i < parts.len() - 1 {
                assert(split_path(text)[i] == parts[i]);
            } else if is_separator(text.last()) {
                if i < parts.len() {
                    assert(split_path(text)[i] == parts[i]);
                }
            } else {
                assert(plain(parts[parts.len() - 1]));
                let grown = parts.last().push(text.last());
                assert forall|k: int| 0 <= k < grown.len() implies !is_separator(
                    #[trigger] grown[k],
                ) by {
                    if k < parts.last().len() {
                        assert(grown[k] == parts.last()[k]);
                    }
                }
            }
        }
    }
}

proof fn lemma_kept_well_formed(parts: Seq<Seq<char>>)
    requires
        parts.len() >= 1,
        forall|i: int| 0 <= i < parts.len() ==> plain(#[trigger] parts[i]),
    ensures
        well_formed(kept_parts(parts)),
    decreases parts.len(),
{
    if parts.len() > 1 {
        let earlier = parts.drop_last();
        assert forall|i: int| 0 <= i < earlier.len() implies plain(#[trigger] earlier[i]) by {
            assert(earlier[i] == parts[i]);
        }
        lemma_kept_well_formed(earlier);
        assert(plain(parts[parts.len() - 1]));
    }
}

proof fn lemma_split_nonempty(s: Seq<char>)
    ensures
        split_path(s).len() >= 1,
    decreases s.len(),
{
    if s.len() > 0 {
        lemma_split_nonempty(s.drop_last());
    }
}

impl View for EnokiKey {
    type V = Seq<Seq<char>>;

    closed spec fn view(&self) -> Seq<Seq<char>> {
        strings_model(self.path@)
    }
}

impl EnokiKey {
    /// A key has at least one segment.
    #[verifier::type_invariant]
    closed spec fn has_segment(self) -> bool {
        self.path@.len() >= 1
    }

    /// The key that a text names.
    pub fn parse(text: &str) -> (key: EnokiKey)
        ensures
            key@ == key_segments(text@),
            key@.len() >= 1,
    {
        let n = text.unicode_len();
        let mut path: Vec<String> = Vec::new();
        let mut start: usize = 0;
        let mut i: usize = 0;
        proof {
            assert(text@.take(0) =~= Seq::<char>::empty());
            assert(split_path(text@.take(0)).drop_last() =~= Seq::<Seq<char>>::empty());
            assert(strings_model(path@) =~= Seq::<Seq<char>>::empty());
            assert(text@.subrange(0, 0) =~= Seq::<char>::empty());
        }
        while i < n
            invariant
                n == text@.len(),
                start <= i <= n,
                split_path(text@.take(i as int)).len() >= 1,
                split_path(text@.take(i as int)).last() == text@.subrange(start as int, i as int),
                strings_model(path@) == kept_parts(split_path(text@.take(i as int)).drop_last()),
            decreases n - i,
        {
            let c = text.get_char(i);
            proof {
                let before = text@.take(i as int);
                let now = text@.take(i + 1);
                assert(now.drop_last() =~= before);
                assert(now.last() == c);
                lemma_split_nonempty(before);
            }
            let ghost parts = split_path(text@.take(i as int));
            if c == '/' || c == ':' {
                let first = path.len() == 0;
                proof {
                    assert(parts.push(Seq::<char>::empty()).drop_last() =~= parts);
                    if parts.len() > 1 {
                        lemma_kept_nonempty(parts.drop_last());
                    }
                }
                if first || start < i {
                    let ghost old_path = path@;
                    let segment = String::from_str(text.substring_char(start, i));
                    path.push(segment);
                    assert(strings_model(path@) =~= strings_model(old_path).push(parts.last()));
                }
                start = i + 1;
                proof {
                    assert(text@.subrange(i + 1, i + 1) =~= Seq::<char>::empty());
                }
            } else {
                proof {
                    let grown = parts.update(parts.len() - 1, parts.last().push(c));
                    assert(grown.drop_last() =~= parts.drop_last());
                    assert(text@.subrange(start as int, i + 1) =~= text@.subrange(
                        start as int,
                        i as int,
                    ).push(c));
                }
            }
            i += 1;
        }
        let ghost parts = split_path(text@.take(n as int));
        proof {
            assert(text@.take(n as int) =~= text@);
            if parts.len() > 1 {
                lemma_kept_nonempty(parts.drop_last());
            }
        }
        if path.len() == 0 || start < n {
            let ghost old_path = path@;
            let segment = String::from_str(text.substring_char(start, n));
            path.push(segment);
            assert(strings_model(path@) =~= strings_model(old_path).push(parts.last()));
        }
        EnokiKey { path }
    }

    /// The key with `prefix` as a new first segment.
    pub fn prefix(self, prefix: String) -> (key: EnokiKey)
        ensures
            key@ == seq![prefix@] + self@,
            key@.len() >= 2,
    {
        proof {
            use_type_invariant(&self);
        }
        let mut path = self.path;
        path.insert(0, prefix);
        assert(strings_model(path@) =~= seq![prefix@] + self@);
        EnokiKey { path }
    }

    /// The key with `suffix` as a new last segment.
    pub fn suffix(self, suffix: String) -> (key: EnokiKey)
        ensures
            key@ == self@.push(suffix@),
            key@.len() >= 2,
            join_segments(key@) == join_segments(self@) + seq!['/'] + suffix@,
    {
        proof {
            use_type_invariant(&self);
            assert(self@.push(suffix@).drop_last() =~= self@);
        }
        let mut path = self.path;
        path.push(suffix);
        assert(strings_model(path@) =~= self@.push(suffix@));
        EnokiKey { path }
    }

    /// The segments joined by `/`.
    pub fn to_path_string(&self) -> (s: String)
        ensures
            s@ == join_segments(self@),
    {
        let mut out = String::new();
        let mut i: usize = 0;
        proof {
            reveal_strlit("/");
            assert(self@.take(0) =~= Seq::<Seq<char>>::empty());
        }
        while i < self.path.len()
            invariant
                i <= self.path.len(),
                "/"@ == seq!['/'],
                out@ == join_segments(self@.take(i as int)),
            decreases self.path.len() - i,
        {
            proof {
                let grown = self@.take(i + 1);
                assert(grown.drop_last() =~= self@.take(i as int));
                assert(grown.last() == self.path@[i as int]@);
            }
            if i > 0 {
                out.append("/");
            }
            out.append(self.path[i].as_str());
            proof {
                if i == 0 {
                    assert(Seq::<char>::empty() + self.path@[0]@ =~= self.path@[0]@);
                }
            }
            i += 1;
        }
        assert(self@.take(self.path.len() as int) =~= self@);
        out
    }

    /// Whether two keys have the same segments.
    pub fn same_as(&self, other: &EnokiKey) -> (b: bool)
        ensures
            b == (self@ == other@),
    {
        if self.path.len() != other.path.len() {
            assert(self@.len() != other@.len());
            return false;
        }
        let mut i: usize = 0;
        while i < self.path.len()
            invariant
                i <= self.path.len(),
                self.path.len() == other.path.len(),
                forall|j: int| 0 <= j < i ==> self@[j] == other@[j],
            decreases self.path.len() - i,
        {
            if self.path[i] != other.path[i] {
                assert(self@[i as int] != other@[i as int]);
                return false;
            }
            i += 1;
        }
        assert(self@ =~= other@);
        true
    }

    /// A copy with the same segments.
    pub fn duplicate(&self) -> (key: EnokiKey)
        ensures
            key@ == self@,
            key@.len() >= 1,
    {
        proof {
            use_type_invariant(self);
        }
        let path = crate::value::copy_strings(&self.path);
        assert(path@.len() == strings_model(path@).len());
        EnokiKey { path }
    }

    /// The segments, in order.
    pub fn segments(&self) -> (r: Vec<String>)
        ensures
            strings_model(r@) == self@,
    {
        crate::value::copy_strings(&self.path)
    }

    /// The number of segments.
    pub fn segment_count(&self) -> (n: usize)
        ensures
            n == self@.len(),
            n >= 1,
    {
        proof {
            use_type_invariant(self);
        }
        self.path.len()
    }
}

impl Clone for EnokiKey {
    /// A copy with the same segments.
    fn clone(&self) -> (key: Self)
        ensures
            key@ == self@,
            key@.len() >= 1,
    {
        self.duplicate()
    }
}

impl From<&str> for EnokiKey {
    /// The key that a text names.
    fn from(text: &str) -> (key: EnokiKey)
        ensures
            key@ == key_segments(text@),
            key@.len() >= 1,
    {
        EnokiKey::parse(text)
    }
}

impl vstd::std_specs::convert::FromSpecImpl<&str> for EnokiKey {
    open spec fn obeys_from_spec() -> bool {
        false
    }

    open spec fn from_spec(text: &str) -> EnokiKey {
        arbitrary()
    }
}

impl From<String> for EnokiKey {
    /// The key that a text names.
    fn from(text: String) -> (key: EnokiKey)
        ensures
            key@ == key_segments(text@),
            key@.len() >= 1,
    {
        EnokiKey::parse(text.as_str())
    }
}

impl vstd::std_specs::convert::FromSpecImpl<String> for EnokiKey {
    open spec fn obeys_from_spec() -> bool {
        false
    }

    open spec fn from_spec(text: String) -> EnokiKey {
        arbitrary()
    }
}

impl From<&EnokiKey> for String {
    /// The segments of the key joined by `/`.
    fn from(key: &EnokiKey) -> (text: String)
        ensures
            text@ == join_segments(key@),
    {
        key.to_path_string()
    }
}

impl vstd::std_specs::convert::FromSpecImpl<&EnokiKey> for String {
    open spec fn obeys_from_spec() -> bool {
        false
    }

    open spec fn from_spec(key: &EnokiKey) -> String {
        arbitrary()
    }
}

impl From<EnokiKey> for String {
    /// The segments of the key joined by `/`.
    fn from(key: EnokiKey) -> (text: String)
        ensures
            text@ == join_segments(key@),
    {
        key.to_path_string()
    }
}

impl vstd::std_specs::convert::FromSpecImpl<EnokiKey> for String {
    open spec fn obeys_from_spec() -> bool {
        false
    }

    open spec fn from_spec(key: EnokiKey) -> String {
        arbitrary()
    }
}

proof fn lemma_kept_nonempty(parts: Seq<Seq<char>>)
    requires
        parts.len() >= 1,
    ensures
        kept_parts(parts).len() >= 1,
    decreases parts.len(),
{
    if parts.len() > 1 {
        lemma_kept_nonempty(parts.drop_last());
    }
}

} // verus!
