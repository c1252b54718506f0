//! Message flags: how a change request alters them, and what differs between two sets.
use vstd::prelude::*;

verus! {

/// A message flag, identified by the text it is displayed as.
#[derive(Debug, PartialEq, Eq, Hash)]
pub struct EnvelopeFlag {
    pub keyword: String,
}

impl View for EnvelopeFlag {
    type V = Seq<char>;

    open spec fn view(&self) -> Seq<char> {
        self.keyword@
    }
}

impl Clone for EnvelopeFlag {
    fn clone(&self) -> (copy: Self)
        ensures
            copy@ == self@,
    {
        EnvelopeFlag { keyword: self.keyword.clone() }
    }
}

/// The displayed texts of a list of flags.
pub open spec fn keywords(flags: Seq<EnvelopeFlag>) -> Seq<Seq<char>> {
    flags.map_values(|flag: EnvelopeFlag| flag@)
}

/// The set that a list of flags stands for.
pub open spec fn flag_set(flags: Seq<EnvelopeFlag>) -> Set<Seq<char>> {
    keywords(flags).to_set()
}

/// The set that an optional list of flags stands for; none for no list.
pub open spec fn optional_flag_set(flags: Option<Vec<EnvelopeFlag>>) -> Set<Seq<char>> {
    match flags {
        Some(list) => flag_set(list@),
        None => Set::empty(),
    }
}

/// The texts of a list of strings.
pub open spec fn texts(strings: Seq<String>) -> Seq<Seq<char>> {
    strings.map_values(|text: String| text@)
}

/// How the flags of messages are to be changed.
pub struct FlagEdit {
    /// The flags that replace whatever was set.
    pub overwrite: Option<Vec<EnvelopeFlag>>,
    /// The flags to set besides those that are set. Not read when `overwrite` is there.
    pub added: Option<Vec<EnvelopeFlag>>,
    /// The flags to clear, after the additions. Not read when `overwrite` is there.
    pub removed: Option<Vec<EnvelopeFlag>>,
}

/// Whether `new` is what `edit` makes of the flags `current`: the overwriting list as it
/// stands, or else every flag once, in any order, that is set or added and not removed.
pub open spec fn is_edited(
    current: Seq<Seq<char>>,
    edit: FlagEdit,
    new: Seq<Seq<char>>,
) -> bool {
    match edit.overwrite {
        Some(list) => new == keywords(list@),
        None => {
            &&& new.no_duplicates()
            &&& new.to_set() == current.to_set().union(optional_flag_set(edit.added)).difference(
                optional_flag_set(edit.removed),
            )
        },
    }
}

/// Whether `added` and `removed` list, each text once and in any order, what is in `new` and
/// not in `old`, and the other way round.
pub open spec fn is_flag_diff(
    old_flags: Seq<Seq<char>>,
    new_flags: Seq<Seq<char>>,
    added: Seq<Seq<char>>,
    removed: Seq<Seq<char>>,
) -> bool {
    &&& added.no_duplicates()
    &&& added.to_set() == new_flags.to_set().difference(old_flags.to_set())
    &&& removed.no_duplicates()
    &&& removed.to_set() == old_flags.to_set().difference(new_flags.to_set())
}

/// A copy of a list of flags.
pub fn clone_flags(flags: &Vec<EnvelopeFlag>) -> (copy: Vec<EnvelopeFlag>)
    ensures
        keywords(copy@) == keywords(flags@),
{
    let mut copy: Vec<EnvelopeFlag> = Vec::new();
    let count: usize = flags.len();
    let mut i: usize = 0;
    while i < count
        invariant
            i <= count == flags@.len(),
            keywords(copy@) == keywords(flags@).take(i as int),
        decreases count - i,
    {
        let ghost before = keywords(copy@);
        copy.push(flags[i].clone());
        assert(keywords(copy@) =~= before.push(flags@[i as int]@));
        assert(keywords(flags@).take(i + 1) =~= before.push(flags@[i as int]@));
        i = i + 1;
    }
    assert(keywords(flags@).take(count as int) =~= keywords(flags@));
    copy
}

/// Whether a list holds a flag.
pub fn has_flag(flags: &[EnvelopeFlag], flag: &EnvelopeFlag) -> (found: bool)
    ensures
        found == flag_set(flags@).contains(flag@),
{
    let count: usize = flags.len();
    let mut i: usize = 0;
    while i < count
        invariant
            i <= count == flags@.len(),
            forall|j: int| 0 <= j < i ==> keywords(flags@)[j] != flag@,
        decreases count - i,
    {
        if flags[i].keyword == flag.keyword {
            assert(keywords(flags@)[i as int] == flag@);
            return true;
        }
        i = i + 1;
    }
    false
}

/// Puts every flag of `more` that is not there yet into a list.
fn add_flags(flags: &mut Vec<EnvelopeFlag>, more: &Vec<EnvelopeFlag>)
    requires
        keywords(old(flags)@).no_duplicates(),
    ensures
        keywords(final(flags)@).no_duplicates(),
        flag_set(final(flags)@) == flag_set(old(flags)@).union(flag_set(more@)),
{
    let count: usize = more.len();
    let mut i: usize = 0;
    proof {
        assert(keywords(more@).take(0).to_set() =~= Set::<Seq<char>>::empty());
        assert(flag_set(flags@) =~= flag_set(old(flags)@).union(
            keywords(more@).take(0).to_set(),
        ));
    }
    while i < count
        invariant
            i <= count == more@.len(),
            keywords(flags@).no_duplicates(),
            flag_set(flags@) == flag_set(old(flags)@).union(
                keywords(more@).take(i as int).to_set(),
            ),
        decreases count - i,
    {
        let ghost before = keywords(flags@);
        let ghost next = more@[i as int]@;
        proof {
            lemma_take_to_set(keywords(more@), i as int);
        }
        if !has_flag(flags, &more[i]) {
            flags.push(more[i].clone());
            proof {
                assert(keywords(flags@) =~= before.push(next));
                lemma_push_text(before, next);
            }
        }
        assert(flag_set(flags@) =~= before.to_set().insert(next));
        assert(flag_set(flags@) =~= flag_set(old(flags)@).union(
            keywords(more@).take(i + 1).to_set(),
        ));
        i = i + 1;
    }
    assert(keywords(more@).take(count as int) =~= keywords(more@));
}

/// The flags of a list that are not in `less`.
fn without_flags(flags: Vec<EnvelopeFlag>, less: &Vec<EnvelopeFlag>) -> (rest: Vec<EnvelopeFlag>)
    requires
        keywords(flags@).no_duplicates(),
    ensures
        keywords(rest@).no_duplicates(),
        flag_set(rest@) == flag_set(flags@).difference(flag_set(less@)),
{
    let mut rest: Vec<EnvelopeFlag> = Vec::new();
    let count: usize = flags.len();
    let mut i: usize = 0;
    while i < count
        invariant
            i <= count == flags@.len(),
            keywords(flags@).no_duplicates(),
            keywords(rest@).no_duplicates(),
            flag_set(rest@) == keywords(flags@).take(i as int).to_set().difference(
                flag_set(less@),
            ),
        decreases count - i,
    {
        let ghost before = keywords(rest@);
        let ghost next = flags@[i as int]@;
        proof {
            lemma_take_to_set(keywords(flags@), i as int);
            assert(keywords(flags@)[i as int] == next);
            if keywords(flags@).take(i as int).to_set().contains(next) {
                let j = keywords(flags@).take(i as int).index_of(next);
                assert(keywords(flags@)[j] == next);
            }
            assert(!before.to_set().contains(next));
        }
        if !has_flag(less, &flags[i]) {
            rest.push(flags[i].clone());
            proof {
                assert(keywords(rest@) =~= before.push(next));
                lemma_push_text(before, next);
            }
        }
        assert(flag_set(rest@) =~= keywords(flags@).take(i + 1).to_set().difference(
            flag_set(less@),
        ));
        i = i + 1;
    }
    assert(keywords(flags@).take(count as int) =~= keywords(flags@));
    rest
}

/// The flags of a message after a change request.
pub fn edited_flags(current: &Vec<EnvelopeFlag>, edit: &FlagEdit) -> (new: Vec<EnvelopeFlag>)
    ensures
        is_edited(keywords(current@), *edit, keywords(new@)),
{
    match &edit.overwrite {
        Some(list) => clone_flags(list),
        None => {
            let mut flags: Vec<EnvelopeFlag> = Vec::new();
            add_flags(&mut flags, current);
            assert(flag_set(flags@) =~= flag_set(current@));
            if let Some(added) = &edit.added {
                add_flags(&mut flags, added);
            }
            assert(flag_set(flags@) =~= flag_set(current@).union(optional_flag_set(edit.added)));
            if let Some(removed) = &edit.removed {
                flags = without_flags(flags, removed);
            }
            assert(flag_set(flags@) =~= flag_set(current@).union(
                optional_flag_set(edit.added),
            ).difference(optional_flag_set(edit.removed)));
            flags
        },
    }
}

/// Whether a list of strings holds the text of a flag.
fn has_text(list: &Vec<String>, flag: &EnvelopeFlag) -> (found: bool)
    ensures
        found == texts(list@).to_set().contains(flag@),
{
    let count: usize = list.len();
    let mut i: usize = 0;
    while i < count
        invariant
            i <= count == list@.len(),
            forall|j: int| 0 <= j < i ==> texts(list@)[j] != flag@,
        decreases count - i,
    {
        if list[i] == flag.keyword {
            assert(texts(list@)[i as int] == flag@);
            return true;
        }
        i = i + 1;
    }
    false
}

/// The texts, each once, of the flags of a list that are not in `less`.
pub fn texts_without(flags: &[EnvelopeFlag], less: &[EnvelopeFlag]) -> (rest: Vec<String>)
    ensures
        texts(rest@).no_duplicates(),
        texts(rest@).to_set() == flag_set(flags@).difference(flag_set(less@)),
{
    let mut rest: Vec<String> = Vec::new();
    let count: usize = flags.len();
    let mut i: usize = 0;
    while i < count
        invariant
            i <= count == flags@.len(),
            texts(rest@).no_duplicates(),
            texts(rest@).to_set() == keywords(flags@).take(i as int).to_set().difference(
                flag_set(less@),
            ),
        decreases count - i,
    {
        let ghost before = texts(rest@);
        let ghost next = flags@[i as int]@;
        proof {
            lemma_take_to_set(keywords(flags@), i as int);
        }
        if !has_flag(less, &flags[i]) && !has_text(&rest, &flags[i]) {
            rest.push(flags[i].keyword.clone());
            proof {
                assert(texts(rest@) =~= before.push(next));
                lemma_push_text(before, next);
            }
        }
        assert(texts(rest@).to_set() =~= keywords(flags@).take(i + 1).to_set().difference(
            flag_set(less@),
        ));
        i = i + 1;
    }
    assert(keywords(flags@).take(count as int) =~= keywords(flags@));
    rest
}

/// One more element of a sequence is one more element of its set.
proof fn lemma_take_to_set(list: Seq<Seq<char>>, i: int)
    requires
        0 <= i < list.len(),
    ensures
        list.take(i + 1).to_set() == list.take(i).to_set().insert(list[i]),
{
    assert(list.take(i + 1) =~= list.take(i).push(list[i]));
    lemma_push_text(list.take(i), list[i]);
}

/// Pushing a text onto a list adds it to the set, and keeps a list without duplicates so if
/// it was not in it.
proof fn lemma_push_text(list: Seq<Seq<char>>, text: Seq<char>)
    ensures
        list.push(text).to_set() == list.to_set().insert(text),
        list.no_duplicates() && !list.to_set().contains(text) ==> list.push(text).no_duplicates(),
{
    let pushed = list.push(text);
    assert forall|t: Seq<char>| list.to_set().insert(text).contains(t) implies #[trigger]
        pushed.to_set().contains(t) by {
        if t == text {
            assert(pushed[list.len() as int] == t);
        } else {
            let i = list.index_of(t);
            assert(pushed[i] == t);
        }
    }
    assert(pushed.to_set() =~= list.to_set().insert(text));
    if list.no_duplicates() && !list.to_set().contains(text) {
        assert forall|i: int, j: int|
            0 <= i < pushed.len() && 0 <= j < pushed.len() && i != j implies pushed[i]
            != pushed[j] by {
            if i < list.len() {
                assert(list.contains(list[i]));
            }
            if j < list.len() {
                assert(list.contains(list[j]));
            }
        }
    }
}

/// The flags that are new and those that are gone have none in common, and lead from the old
/// flags to the new ones.
pub proof fn law_diff_leads_to_new(
    old_flags: Seq<Seq<char>>,
    new_flags: Seq<Seq<char>>,
    added: Seq<Seq<char>>,
    removed: Seq<Seq<char>>,
)
    requires
        is_flag_diff(old_flags, new_flags, added, removed),
    ensures
        added.to_set().disjoint(removed.to_set()),
        old_flags.to_set().union(added.to_set()).difference(removed.to_set())
            == new_flags.to_set(),
{
    assert(old_flags.to_set().union(added.to_set()).difference(removed.to_set())
        =~= new_flags.to_set());
}

/// The way back swaps what is new and what is gone.
pub proof fn law_diff_reverses(
    old_flags: Seq<Seq<char>>,
    new_flags: Seq<Seq<char>>,
    added: Seq<Seq<char>>,
    removed: Seq<Seq<char>>,
)
    requires
        is_flag_diff(old_flags, new_flags, added, removed),
    ensures
        is_flag_diff(new_flags, old_flags, removed, added),
{
}

/// Nothing is new and nothing is gone exactly when the flags are the same, in whatever order
/// and however often they are listed.
pub proof fn law_diff_is_empty_iff_same(
    old_flags: Seq<Seq<char>>,
    new_flags: Seq<Seq<char>>,
    added: Seq<Seq<char>>,
    removed: Seq<Seq<char>>,
)
    requires
        is_flag_diff(old_flags, new_flags, added, removed),
    ensures
        added.len() == 0 && removed.len() == 0 <==> old_flags.to_set() == new_flags.to_set(),
{
    if added.len() == 0 && removed.len() == 0 {
        assert(added.to_set() =~= Set::<Seq<char>>::empty());
        assert(removed.to_set() =~= Set::<Seq<char>>::empty());
        assert forall|text: Seq<char>|
            old_flags.to_set().contains(text) == new_flags.to_set().contains(text) by {
            assert(!new_flags.to_set().difference(old_flags.to_set()).contains(text));
            assert(!old_flags.to_set().difference(new_flags.to_set()).contains(text));
        }
        assert(old_flags.to_set() =~= new_flags.to_set());
    }
    if old_flags.to_set() == new_flags.to_set() {
        if added.len() > 0 {
            assert(added.to_set().contains(added[0]));
        }
        if removed.len() > 0 {
            assert(removed.to_set().contains(removed[0]));
        }
    }
}

/// Of a request without an overwriting list, a flag to clear is never set afterwards, also
/// when it is among those to set; a flag to set and not to clear is; and any other is set if
/// it was before.
pub proof fn law_removal_wins(
    current: Seq<Seq<char>>,
    edit: FlagEdit,
    new: Seq<Seq<char>>,
    flag: Seq<char>,
)
    requires
        is_edited(current, edit, new),
        edit.overwrite is None,
    ensures
        optional_flag_set(edit.removed).contains(flag) ==> !new.contains(flag),
        optional_flag_set(edit.added).contains(flag) && !optional_flag_set(edit.removed).contains(
            flag,
        ) ==> new.contains(flag),
        !optional_flag_set(edit.added).contains(flag) && !optional_flag_set(edit.removed).contains(
            flag,
        ) ==> (new.contains(flag) <==> current.contains(flag)),
{
    assert(new.contains(flag) == new.to_set().contains(flag));
    assert(current.contains(flag) == current.to_set().contains(flag));
}

/// Making the same change again changes nothing more.
pub proof fn law_edit_twice_is_once(
    current: Seq<Seq<char>>,
    edit: FlagEdit,
    once: Seq<Seq<char>>,
    twice: Seq<Seq<char>>,
)
    requires
        is_edited(current, edit, once),
        is_edited(once, edit, twice),
    ensures
        twice.to_set() == once.to_set(),
{
    assert(twice.to_set() =~= once.to_set());
}

/// Whether a flag with the given text is in a list.
pub open spec fn lists(flags: Seq<EnvelopeFlag>, text: Seq<char>) -> bool {
    exists|i: int| 0 <= i < flags.len() && (#[trigger] flags[i]).keyword@ == text
}

/// Whether a flag with the given text is in an optional list.
pub open spec fn optionally_lists(flags: Option<Vec<EnvelopeFlag>>, text: Seq<char>) -> bool {
    flags matches Some(list) && lists(list@, text)
}

/// The set of a list has exactly the texts of its flags.
proof fn lemma_flag_set(flags: Seq<EnvelopeFlag>, text: Seq<char>)
    ensures
        flag_set(flags).contains(text) <==> lists(flags, text),
        keywords(flags).contains(text) <==> lists(flags, text),
{
    if keywords(flags).contains(text) {
        let i = keywords(flags).index_of(text);
        assert(flags[i].keyword@ == text);
    }
    if lists(flags, text) {
        let i = choose|i: int| 0 <= i < flags.len() && (#[trigger] flags[i]).keyword@ == text;
        assert(keywords(flags)[i] == text);
    }
}

/// A copy of a list has the same flags in the same order.
pub proof fn law_copy_has_the_same_flags(flags: &Vec<EnvelopeFlag>, copy: Vec<EnvelopeFlag>)
    requires
        call_ensures(clone_flags, (flags,), copy),
    ensures
        copy@.len() == flags@.len(),
        forall|i: int|
            0 <= i < flags@.len() ==> (#[trigger] copy@[i]).keyword@ == flags@[i].keyword@,
{
    lemma_same_keywords(copy@, flags@);
}

/// A flag is found in a list exactly when one with its text is there.
pub proof fn law_flag_is_found_by_its_text(
    flags: &[EnvelopeFlag],
    flag: &EnvelopeFlag,
    found: bool,
)
    requires
        call_ensures(has_flag, (flags, flag), found),
    ensures
        found <==> lists(flags@, flag.keyword@),
{
    lemma_flag_set(flags@, flag.keyword@);
}

/// With an overwriting list the new flags are exactly that list, whatever was set and whatever
/// the lists to add and to remove are.
pub proof fn law_overwrite_is_taken_as_it_stands(
    current: &Vec<EnvelopeFlag>,
    edit: &FlagEdit,
    list: Vec<EnvelopeFlag>,
    new: Vec<EnvelopeFlag>,
)
    requires
        call_ensures(edited_flags, (current, edit), new),
        edit.overwrite == Some(list),
    ensures
        new@.len() == list@.len(),
        forall|i: int| 0 <= i < list@.len() ==> (#[trigger] new@[i]).keyword@ == list@[i].keyword@,
        forall|text: Seq<char>| #[trigger] lists(new@, text) <==> lists(list@, text),
{
    lemma_same_keywords(new@, list@);
    assert forall|text: Seq<char>| #[trigger] lists(new@, text) <==> lists(list@, text) by {
        lemma_flag_set(new@, text);
        lemma_flag_set(list@, text);
    }
}

/// Two messages get the same flags from a request with an overwriting list, however different
/// theirs were.
pub proof fn law_overwrite_forgets_what_was_set(
    one: &Vec<EnvelopeFlag>,
    other: &Vec<EnvelopeFlag>,
    edit: &FlagEdit,
    new_one: Vec<EnvelopeFlag>,
    new_other: Vec<EnvelopeFlag>,
)
    requires
        call_ensures(edited_flags, (one, edit), new_one),
        call_ensures(edited_flags, (other, edit), new_other),
        edit.overwrite is Some,
    ensures
        new_one@.len() == new_other@.len(),
        forall|i: int|
            0 <= i < new_one@.len() ==> (#[trigger] new_one@[i]).keyword@
                == new_other@[i].keyword@,
{
    let list = edit.overwrite.unwrap();
    law_overwrite_is_taken_as_it_stands(one, edit, list, new_one);
    law_overwrite_is_taken_as_it_stands(other, edit, list, new_other);
}

/// Without an overwriting list a flag is set afterwards exactly when it was set or is to be
/// added, and is not to be removed; and no flag is listed twice.
pub proof fn law_edit_adds_and_then_removes(
    current: &Vec<EnvelopeFlag>,
    edit: &FlagEdit,
    new: Vec<EnvelopeFlag>,
)
    requires
        call_ensures(edited_flags, (current, edit), new),
        edit.overwrite is None,
    ensures
        forall|text: Seq<char>| #[trigger]
            lists(new@, text) <==> (lists(current@, text) || optionally_lists(edit.added, text))
                && !optionally_lists(edit.removed, text),
        forall|i: int, j: int|
            0 <= i < j < new@.len() ==> (#[trigger] new@[i]).keyword@ != (
            #[trigger] new@[j]).keyword@,
{
    lemma_edited(current@, *edit, new@);
}

/// The texts that are left of a list without another are those of its flags that the other
/// does not have, and no text is listed twice.
pub proof fn law_texts_left_are_those_missing(
    flags: &[EnvelopeFlag],
    less: &[EnvelopeFlag],
    rest: Vec<String>,
)
    requires
        call_ensures(texts_without, (flags, less), rest),
    ensures
        forall|text: Seq<char>| #[trigger]
            lists(flags@, text) && !lists(less@, text) ==> exists|i: int|
                0 <= i < rest@.len() && (#[trigger] rest@[i])@ == text,
        forall|i: int|
            0 <= i < rest@.len() ==> lists(flags@, (#[trigger] rest@[i])@) && !lists(
                less@,
                rest@[i]@,
            ),
        forall|i: int, j: int|
            0 <= i < j < rest@.len() ==> (#[trigger] rest@[i])@ != (#[trigger] rest@[j])@,
{
    lemma_texts_left(flags@, less@, rest@);
}

/// What the texts of a difference are.
pub(crate) proof fn lemma_texts_left(
    flags: Seq<EnvelopeFlag>,
    less: Seq<EnvelopeFlag>,
    rest: Seq<String>,
)
    requires
        texts(rest).no_duplicates(),
        texts(rest).to_set() == flag_set(flags).difference(flag_set(less)),
    ensures
        forall|text: Seq<char>| #[trigger]
            lists(flags, text) && !lists(less, text) ==> exists|i: int|
                0 <= i < rest.len() && (#[trigger] rest[i])@ == text,
        forall|i: int|
            0 <= i < rest.len() ==> lists(flags, (#[trigger] rest[i])@) && !lists(less, rest[i]@),
        forall|i: int, j: int|
            0 <= i < j < rest.len() ==> (#[trigger] rest[i])@ != (#[trigger] rest[j])@,
{
    assert forall|text: Seq<char>| #[trigger]
        lists(flags, text) && !lists(less, text) implies exists|i: int|
        0 <= i < rest.len() && (#[trigger] rest[i])@ == text by {
        lemma_flag_set(flags, text);
        lemma_flag_set(less, text);
        assert(texts(rest).to_set().contains(text));
        let i = texts(rest).index_of(text);
        assert(rest[i]@ == text);
    }
    assert forall|i: int| 0 <= i < rest.len() implies lists(flags, (#[trigger] rest[i])@) && !lists(
        less,
        rest[i]@,
    ) by {
        lemma_flag_set(flags, rest[i]@);
        lemma_flag_set(less, rest[i]@);
        assert(texts(rest)[i] == rest[i]@);
        assert(texts(rest).to_set().contains(rest[i]@));
    }
    assert forall|i: int, j: int| 0 <= i < j < rest.len() implies (#[trigger] rest[i])@ != (
    #[trigger] rest[j])@ by {
        assert(texts(rest)[i] != texts(rest)[j]);
    }
}

/// Lists of flags can be copied, searched, edited and compared whatever they hold.
pub proof fn law_flag_lists_may_hold_anything(
    flags: &Vec<EnvelopeFlag>,
    edit: &FlagEdit,
    slice: &[EnvelopeFlag],
    less: &[EnvelopeFlag],
    flag: &EnvelopeFlag,
)
    ensures
        call_requires(clone_flags, (flags,)),
        call_requires(has_flag, (slice, flag)),
        call_requires(edited_flags, (flags, edit)),
        call_requires(texts_without, (slice, less)),
{
}

/// Whether two lists have flags with the same texts in the same order.
pub open spec fn same_flags(one: Seq<EnvelopeFlag>, other: Seq<EnvelopeFlag>) -> bool {
    &&& one.len() == other.len()
    &&& forall|i: int|
        0 <= i < one.len() ==> (#[trigger] one[i]).keyword@ == (#[trigger] other[i]).keyword@
}

/// Lists with the same keywords have the same flags.
pub(crate) proof fn lemma_same_keywords(one: Seq<EnvelopeFlag>, other: Seq<EnvelopeFlag>)
    requires
        keywords(one) == keywords(other),
    ensures
        same_flags(one, other),
{
    assert(keywords(one).len() == one.len());
    assert(keywords(other).len() == other.len());
    assert forall|i: int| 0 <= i < one.len() implies (#[trigger] one[i]).keyword@ == (
    #[trigger] other[i]).keyword@ by {
        assert(keywords(one)[i] == one[i]@);
        assert(keywords(other)[i] == other[i]@);
    }
}

/// Two lists with the flags of a third have the same flags.
pub(crate) proof fn lemma_same_as_third(
    one: Seq<EnvelopeFlag>,
    other: Seq<EnvelopeFlag>,
    third: Seq<EnvelopeFlag>,
)
    requires
        same_flags(one, third),
        same_flags(other, third),
    ensures
        same_flags(one, other),
{
    assert forall|i: int| 0 <= i < one.len() implies (#[trigger] one[i]).keyword@ == (
    #[trigger] other[i]).keyword@ by {
        assert(one[i].keyword@ == third[i].keyword@);
        assert(other[i].keyword@ == third[i].keyword@);
    }
}

/// What an edit makes of a list, text by text.
pub(crate) proof fn lemma_edited(
    current: Seq<EnvelopeFlag>,
    edit: FlagEdit,
    new: Seq<EnvelopeFlag>,
)
    requires
        is_edited(keywords(current), edit, keywords(new)),
    ensures
        edit.overwrite matches Some(list) ==> same_flags(new, list@),
        edit.overwrite is None ==> forall|text: Seq<char>| #[trigger]
            lists(new, text) <==> (lists(current, text) || optionally_lists(edit.added, text))
                && !optionally_lists(edit.removed, text),
        edit.overwrite is None ==> forall|i: int, j: int|
            0 <= i < j < new.len() ==> (#[trigger] new[i]).keyword@ != (#[trigger] new[j]).keyword@,
{
    if let Some(list) = edit.overwrite {
        lemma_same_keywords(new, list@);
    } else {
        assert forall|text: Seq<char>| #[trigger]
            lists(new, text) <==> (lists(current, text) || optionally_lists(edit.added, text))
                && !optionally_lists(edit.removed, text) by {
            lemma_flag_set(new, text);
            lemma_flag_set(current, text);
            if let Some(added) = edit.added {
                lemma_flag_set(added@, text);
            }
            if let Some(removed) = edit.removed {
                lemma_flag_set(removed@, text);
            }
            assert(keywords(new).to_set().contains(text) == lists(new, text));
        }
        assert forall|i: int, j: int| 0 <= i < j < new.len() implies (#[trigger] new[i]).keyword@ != (
        #[trigger] new[j]).keyword@ by {
            assert(keywords(new)[i] != keywords(new)[j]);
        }
    }
}

} // verus!
