use vstd::prelude::*;

verus! {

/// The category flags of one moderation verdict.
#[derive(Clone, Copy, Debug, PartialEq, Eq, Structural, Default)]
pub struct Categories {
    pub hate: bool,
    pub hate_threatening: bool,
    pub self_harm: bool,
    pub sexual: bool,
    pub sexual_minors: bool,
    pub violence: bool,
    pub violence_graphic: bool,
}

/// Sentence for a verdict with no category set.
pub const APPROVAL: &'static str = "Jesus is happy with you";

/// Opening of the sentence for a flagged verdict.
pub const REPROACH_OPENING: &'static str = "What you just said is ";

/// Closing of the sentence for a flagged verdict.
pub const REPROACH_CLOSING: &'static str = ". Jesus is not happy with you";

/// Separator between two category labels.
pub const LABEL_SEPARATOR: &'static str = ", ";

pub const LABEL_HATE: &'static str = "hateful";

pub const LABEL_THREAT: &'static str = "threatening";

pub const LABEL_SELF_HARM: &'static str = "suicidal";

pub const LABEL_SEXUAL: &'static str = "sexual";

pub const LABEL_MINORS: &'static str = "involving minors";

pub const LABEL_VIOLENCE: &'static str = "violent";

/// `s` if `b` holds, else nothing.
pub open spec fn label_if(b: bool, s: Seq<char>) -> Seq<Seq<char>> {
    if b {
        seq![s]
    } else {
        Seq::empty()
    }
}

/// The labels of the categories that are set, in their fixed order; both
/// violence flags share one label.
pub open spec fn category_labels(c: Categories) -> Seq<Seq<char>> {
    label_if(c.hate, LABEL_HATE@) + label_if(c.hate_threatening, LABEL_THREAT@) + label_if(
        c.self_harm,
        LABEL_SELF_HARM@,
    ) + label_if(c.sexual, LABEL_SEXUAL@) + label_if(c.sexual_minors, LABEL_MINORS@) + label_if(
        c.violence || c.violence_graphic,
        LABEL_VIOLENCE@,
    )
}

/// The items of `parts` with `sep` between each two neighbours.
pub open spec fn join(parts: Seq<Seq<char>>, sep: Seq<char>) -> Seq<char>
    decreases parts.len(),
{
    if parts.len() == 0 {
        Seq::empty()
    } else if parts.len() == 1 {
        parts[0]
    } else {
        join(parts.drop_last(), sep) + sep + parts.last()
    }
}

/// The human-readable sentence for a verdict.
pub open spec fn summary_text(c: Categories) -> Seq<char> {
    let labels = category_labels(c);
    if labels.len() == 0 {
        APPROVAL@
    } else {
        REPROACH_OPENING@ + join(labels, LABEL_SEPARATOR@) + REPROACH_CLOSING@
    }
}

impl Categories {
    /// Whether any category is set.
    pub open spec fn flagged(self) -> bool {
        self.hate || self.hate_threatening || self.self_harm || self.sexual || self.sexual_minors
            || self.violence || self.violence_graphic
    }

    pub fn is_flagged(&self) -> (r: bool)
        ensures
            r == self.flagged(),
    {
        self.hate || self.hate_threatening || self.self_harm || self.sexual || self.sexual_minors
            || self.violence || self.violence_graphic
    }

    /// The labels of the categories that are set.
    pub fn labels(&self) -> (r: Vec<&'static str>)
        ensures
            r@.map_values(|s: &str| s@) == category_labels(*self),
    {
        let mut r: Vec<&'static str> = Vec::new();
        if self.hate {
            r.push(LABEL_HATE);
        }
        if self.hate_threatening {
            r.push(LABEL_THREAT);
        }
        if self.self_harm {
            r.push(LABEL_SELF_HARM);
        }
        if self.sexual {
            r.push(LABEL_SEXUAL);
        }
        if self.sexual_minors {
            r.push(LABEL_MINORS);
        }
        if self.violence || self.violence_graphic {
            r.push(LABEL_VIOLENCE);
        }
        assert(r@.map_values(|s: &str| s@) =~= category_labels(*self));
        r
    }

    /// The sentence that tells the user what the verdict found.
    pub fn summary(&self) -> (r: String)
        ensures
            r@ == summary_text(*self),
    {
        let labels = self.labels();
        let ghost parts = labels@.map_values(|s: &str| s@);
        if labels.len() == 0 {
            return String::from_str(APPROVAL);
        }
        let mut text = String::from_str(REPROACH_OPENING);
        text.append(labels[0]);
        let mut i: usize = 1;
        while i < labels.len()
            invariant
                1 <= i <= labels.len(),
                parts == labels@.map_values(|s: &str| s@),
                text@ == REPROACH_OPENING@ + join(parts.take(i as int), LABEL_SEPARATOR@),
            decreases labels.len() - i,
        {
            proof {
                assert(parts.take(i as int + 1).drop_last() =~= parts.take(i as int));
                if i == 1 {
                    assert(parts.take(1) =~= seq![parts[0]]);
                }
            }
            text.append(LABEL_SEPARATOR);
            text.append(labels[i]);
            i = i + 1;
            assert(text@ =~= REPROACH_OPENING@ + join(parts.take(i as int), LABEL_SEPARATOR@));
        }
        assert(parts.take(i as int) =~= parts);
        text.append(REPROACH_CLOSING);
        text
    }
}

/// What to tell the chat about a verdict, namely its sentence where it is flagged;
/// nothing where it is not, or where no verdict came (`None`).
pub fn moderation_notice(classified: Option<Categories>) -> (notice: Option<String>)
    ensures
        notice is Some <==> (classified is Some && classified->Some_0.flagged()),
        notice is Some ==> notice->Some_0@ == summary_text(classified->Some_0),
{
    match classified {
        Some(categories) => {
            if categories.is_flagged() {
                Some(categories.summary())
            } else {
                None
            }
        },
        None => None,
    }
}

/// Whether `needle` stands somewhere in `hay` as a contiguous run.
pub open spec fn occurs_in(needle: Seq<char>, hay: Seq<char>) -> bool {
    exists|i: int|
        0 <= i && i + needle.len() <= hay.len() && #[trigger] hay.subrange(i, i + needle.len())
            == needle
}

proof fn lemma_occurs_at(needle: Seq<char>, hay: Seq<char>, at: int)
    requires
        0 <= at,
        at + needle.len() <= hay.len(),
        hay.subrange(at, at + needle.len()) =~= needle,
    ensures
        occurs_in(needle, hay),
{
}

proof fn lemma_parts_occur_in_join(parts: Seq<Seq<char>>, sep: Seq<char>, k: int)
    requires
        0 <= k < parts.len(),
    ensures
        occurs_in(parts[k], join(parts, sep)),
    decreases parts.len(),
{
    let whole = join(parts, sep);
    if parts.len() == 1 {
        lemma_occurs_at(parts[k], whole, 0);
    } else if k == parts.len() - 1 {
        let at = join(parts.drop_last(), sep).len() + sep.len() as int;
        lemma_occurs_at(parts[k], whole, at);
    } else {
        let front = join(parts.drop_last(), sep);
        lemma_parts_occur_in_join(parts.drop_last(), sep, k);
        assert(parts.drop_last()[k] == parts[k]);
        let i = choose|i: int|
            0 <= i && i + parts[k].len() <= front.len() && #[trigger] front.subrange(
                i,
                i + parts[k].len(),
            ) == parts[k];
        assert(whole.subrange(i, i + parts[k].len()) =~= front.subrange(i, i + parts[k].len()));
        lemma_occurs_at(parts[k], whole, i);
    }
}

proof fn lemma_label_if_contains(b: bool, s: Seq<char>, x: Seq<char>)
    ensures
        label_if(b, s).contains(x) <==> (b && x == s),
{
    if b {
        assert(label_if(b, s)[0] == s);
    }
}

/// A flagged verdict's summary is not empty and holds the label of each set
/// category and of no other, in the reproach sentence; a verdict with no flag
/// gives the approval sentence.
pub proof fn lemma_summary_names_exactly_the_flags(c: Categories)
    ensures
        c.flagged() ==> summary_text(c).len() > 0,
        c.flagged() ==> summary_text(c) == REPROACH_OPENING@ + join(
            category_labels(c),
            LABEL_SEPARATOR@,
        ) + REPROACH_CLOSING@,
        forall|k: int|
            0 <= k < category_labels(c).len() ==> occurs_in(
                #[trigger] category_labels(c)[k],
                summary_text(c),
            ),
        category_labels(c).contains(LABEL_HATE@) <==> c.hate,
        category_labels(c).contains(LABEL_THREAT@) <==> c.hate_threatening,
        category_labels(c).contains(LABEL_SELF_HARM@) <==> c.self_harm,
        category_labels(c).contains(LABEL_SEXUAL@) <==> c.sexual,
        category_labels(c).contains(LABEL_MINORS@) <==> c.sexual_minors,
        category_labels(c).contains(LABEL_VIOLENCE@) <==> (c.violence || c.violence_graphic),
        !c.flagged() ==> summary_text(c) == APPROVAL@,
{
    reveal_strlit("hateful");
    reveal_strlit("threatening");
    reveal_strlit("suicidal");
    reveal_strlit("sexual");
    reveal_strlit("involving minors");
    reveal_strlit("violent");
    reveal_strlit("What you just said is ");
    broadcast use vstd::seq_lib::lemma_seq_concat_contains_all_elements;

    assert(LABEL_HATE@ != LABEL_VIOLENCE@) by {
        assert(LABEL_HATE@[0] != LABEL_VIOLENCE@[0]);
    }

    assert forall|b: bool, s: Seq<char>, x: Seq<char>|
        #[trigger] label_if(b, s).contains(x) <==> (b && x == s) by {
        lemma_label_if_contains(b, s, x);
    }
    let labels = category_labels(c);
    let text = summary_text(c);
    assert forall|k: int| 0 <= k < labels.len() implies occurs_in(
        #[trigger] labels[k],
        text,
    ) by {
        let joined = join(labels, LABEL_SEPARATOR@);
        lemma_parts_occur_in_join(labels, LABEL_SEPARATOR@, k);
        let i = choose|i: int|
            0 <= i && i + labels[k].len() <= joined.len() && #[trigger] joined.subrange(
                i,
                i + labels[k].len(),
            ) == labels[k];
        let at: int = REPROACH_OPENING@.len() + i;
        assert(text.subrange(at, at + labels[k].len()) =~= joined.subrange(
            i,
            i + labels[k].len(),
        ));
        lemma_occurs_at(labels[k], text, at);
    }
}

} // verus!
