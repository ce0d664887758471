//! The course page: which of its anchors lead to the exercises of a lab.
//!
//! A lab is one list item of the page, found by its accessibility label.
//! Inside it every activity container is searched for anchors, and an anchor
//! counts as an exercise link when the image it starts with is the exercise
//! icon.

use crate::dom::{
    attribute, first_child, first_child_of, first_match, matches_within, parsed_document,
    parsed_selector, select_first, select_within, Child,
};
use crate::lab::{label_of, lab_label};
use crate::text::{chars_of, same_chars, texts};
use vstd::prelude::*;

verus! {

/// The address of the image that marks an anchor as an exercise link.
pub const ICON_URL: &'static str =
    "https://elearning.studenti.math.unipd.it/labs/theme/image.php/boost/vpl/1591223608/icon";

/// The selector for the activity containers inside a lab's list item.
pub const ACTIVITY_SELECTOR: &'static str = ".activityinstance";

/// The selector for the candidate anchors inside an activity container.
pub const ANCHOR_SELECTOR: &'static str = "a[onclick=\"\"]";

/// Why no list of links could be read from a course page.
#[derive(Clone, Copy, Debug, PartialEq, Eq, Structural)]
pub enum LinksError {
    /// One of the selectors was refused; with a plain lab name this does not
    /// happen.
    Selector,
    /// The page has no list item labelled for the requested lab.
    LabNotFound,
    /// An anchor carries the exercise icon but no target address.
    MissingTarget,
}

/// What the rules read from one candidate anchor.
#[derive(Clone, Debug, PartialEq, Eq)]
pub struct Anchor {
    /// The `src` attribute of the anchor's first child, where that child is an
    /// element and has one.
    pub icon: Option<String>,
    /// The anchor's `href` attribute.
    pub href: Option<String>,
}

/// The mathematical content of an [`Anchor`].
pub struct AnchorView {
    pub icon: Option<Seq<char>>,
    pub href: Option<Seq<char>>,
}

/// The text that an optional string holds.
pub open spec fn text_of(value: Option<String>) -> Option<Seq<char>> {
    match value {
        Some(s) => Some(s@),
        None => None,
    }
}

impl View for Anchor {
    type V = AnchorView;

    open spec fn view(&self) -> AnchorView {
        AnchorView { icon: text_of(self.icon), href: text_of(self.href) }
    }
}

/// The contents of a sequence of anchors, in order.
pub open spec fn anchor_views(anchors: Seq<Anchor>) -> Seq<AnchorView> {
    anchors.map_values(|a: Anchor| a@)
}

/// Whether `s` begins with the path segment `_s/`.
pub open spec fn starts_with_marker(s: Seq<char>) -> bool {
    s.len() >= 3 && s[0] == '_' && s[1] == 's' && s[2] == '/'
}

/// `s` with every occurrence of `_s/` taken out, scanning from the left and
/// never looking again at what an earlier removal has joined.
pub open spec fn without_marker(s: Seq<char>) -> Seq<char>
    decreases s.len(),
{
    if s.len() == 0 {
        s
    } else if starts_with_marker(s) {
        without_marker(s.skip(3))
    } else {
        seq![s[0]] + without_marker(s.skip(1))
    }
}

/// Whether an image address is that of the exercise icon, once `_s/` has been
/// taken out of it.
pub open spec fn is_icon(src: Seq<char>) -> bool {
    without_marker(src) == ICON_URL@
}

/// Whether an anchor is an exercise link: it starts with an image whose
/// address is the exercise icon.
pub open spec fn qualifies(anchor: AnchorView) -> bool {
    anchor.icon is Some && is_icon(anchor.icon->0)
}

/// The link that an anchor contributes: its target if it qualifies, nothing
/// otherwise.
pub open spec fn link_of(anchor: AnchorView) -> Option<Seq<char>> {
    if qualifies(anchor) {
        anchor.href
    } else {
        None
    }
}

/// Whether some qualifying anchor lacks a target.
pub open spec fn has_broken_link(anchors: Seq<AnchorView>) -> bool {
    exists|i: int| 0 <= i < anchors.len() && qualifies(#[trigger] anchors[i]) && anchors[i].href is None
}

/// The targets of the qualifying anchors, in the order of the anchors.
pub open spec fn targets(anchors: Seq<AnchorView>) -> Seq<Seq<char>> {
    anchors.filter_map(|a: AnchorView| link_of(a))
}

/// The exercise links among a sequence of anchors: the targets of those that
/// qualify, in order, unless one of them has no target.
pub open spec fn links_among(anchors: Seq<AnchorView>) -> Result<Seq<Seq<char>>, LinksError> {
    if has_broken_link(anchors) {
        Err(LinksError::MissingTarget)
    } else {
        Ok(targets(anchors))
    }
}

/// What the rules read from the anchor element `element`.
pub open spec fn anchor_at(element: scraper::ElementRef<'_>) -> AnchorView {
    AnchorView {
        icon: match first_child_of(element) {
            Child::Element(image) => attribute(image, "src"@),
            _ => None,
        },
        href: attribute(element, "href"@),
    }
}

/// The anchors that `elements` stand for, in order.
pub open spec fn anchors_at(elements: Seq<scraper::ElementRef<'_>>) -> Seq<AnchorView> {
    elements.map_values(|e: scraper::ElementRef<'_>| anchor_at(e))
}

/// The candidate anchors of a run of activity containers: those of the first
/// container in the order in which they are matched, then those of the
/// second, and so on.
pub open spec fn anchors_under(
    activities: Seq<scraper::ElementRef<'_>>,
    selector: scraper::Selector,
) -> Seq<AnchorView>
    decreases activities.len(),
{
    if activities.len() == 0 {
        Seq::empty()
    } else {
        anchors_under(activities.drop_last(), selector) + anchors_at(
            matches_within(activities.last(), selector),
        )
    }
}

/// The selector for the list item of a lab: `li[aria-label="Laboratorio <lab>"]`.
pub open spec fn label_selector(lab: Seq<char>) -> Seq<char> {
    "li[aria-label=\""@ + lab_label(lab) + "\"]"@
}

/// The exercise links of the lab `lab` on the course page `page`.
///
/// The three selectors are compiled first, and a refusal of any of them is an
/// error. The lab is the first list item that matches its label; a page
/// without one is an error, which keeps it apart from a lab that has no
/// exercises. The links are those among the anchors under the lab's activity
/// containers.
pub open spec fn page_links(page: Seq<char>, lab: Seq<char>) -> Result<Seq<Seq<char>>, LinksError> {
    match (
        parsed_selector(label_selector(lab)),
        parsed_selector(ACTIVITY_SELECTOR@),
        parsed_selector(ANCHOR_SELECTOR@),
    ) {
        (Some(item), Some(activity), Some(anchor)) => match first_match(
            parsed_document(page),
            item,
        ) {
            Some(lab_item) => links_among(
                anchors_under(matches_within(lab_item, activity), anchor),
            ),
            None => Err(LinksError::LabNotFound),
        },
        _ => Err(LinksError::Selector),
    }
}

/// Whether a result of the link rules holds what `expected` says.
pub open spec fn links_agree(
    found: Result<Vec<String>, LinksError>,
    expected: Result<Seq<Seq<char>>, LinksError>,
) -> bool {
    match found {
        Ok(links) => expected == Ok::<Seq<Seq<char>>, LinksError>(texts(links@)),
        Err(e) => expected == Err::<Seq<Seq<char>>, LinksError>(e),
    }
}

/// The anchors that qualify, in the order of the anchors.
pub open spec fn qualifying(anchors: Seq<AnchorView>) -> Seq<AnchorView> {
    anchors.filter(|a: AnchorView| qualifies(a))
}

/// The targets of one run of anchors followed by another are the targets of
/// the first followed by those of the second.
pub proof fn targets_of_concat(first: Seq<AnchorView>, second: Seq<AnchorView>)
    ensures
        targets(first + second) == targets(first) + targets(second),
    decreases second.len(),
{
    if second.len() == 0 {
        assert(first + second == first);
        assert(targets(first) + targets(second) == targets(first));
    } else {
        let all = first + second;
        assert(all.drop_last() == first + second.drop_last());
        assert(all.last() == second.last());
        targets_of_concat(first, second.drop_last());
        match link_of(second.last()) {
            Some(link) => {
                assert(targets(first) + (targets(second.drop_last()) + seq![link]) == targets(first)
                    + targets(second.drop_last()) + seq![link]);
            },
            None => {},
        }
    }
}

/// A run of anchors holds a qualifying anchor without a target exactly if one
/// of its two parts does.
pub proof fn broken_link_of_concat(first: Seq<AnchorView>, second: Seq<AnchorView>)
    ensures
        has_broken_link(first + second) <==> has_broken_link(first) || has_broken_link(second),
{
    let all = first + second;
    if has_broken_link(first) {
        let i = choose|i: int| 0 <= i < first.len() && qualifies(#[trigger] first[i]) && first[i].href is None;
        assert(all[i] == first[i]);
    }
    if has_broken_link(second) {
        let i = choose|i: int| 0 <= i < second.len() && qualifies(#[trigger] second[i]) && second[i].href is None;
        assert(all[first.len() + i] == second[i]);
    }
    if has_broken_link(all) {
        let i = choose|i: int| 0 <= i < all.len() && qualifies(#[trigger] all[i]) && all[i].href is None;
        if i < first.len() {
            assert(first[i] == all[i]);
        } else {
            assert(second[i - first.len()] == all[i]);
        }
    }
}

/// Where every qualifying anchor has a target, there are exactly as many
/// links as qualifying anchors, and the links are their targets in the
/// anchors' order.
pub proof fn links_follow_anchors(anchors: Seq<AnchorView>)
    requires
        !has_broken_link(anchors),
    ensures
        links_among(anchors) == Ok::<Seq<Seq<char>>, LinksError>(
            qualifying(anchors).map_values(|a: AnchorView| a.href->0),
        ),
        targets(anchors).len() == qualifying(anchors).len(),
    decreases anchors.len(),
{
    reveal(Seq::filter);
    let target = |a: AnchorView| a.href->0;
    if anchors.len() == 0 {
        assert(targets(anchors) == qualifying(anchors).map_values(target));
    } else {
        let rest = anchors.drop_last();
        let last = anchors.last();
        assert forall|k: int| 0 <= k < rest.len() && qualifies(#[trigger] rest[k]) implies rest[k].href is Some by {
            assert(rest[k] == anchors[k]);
        }
        links_follow_anchors(rest);
        if qualifies(last) {
            assert(anchors[anchors.len() - 1].href is Some);
            assert(qualifying(anchors) == qualifying(rest).push(last));
            assert(qualifying(rest).push(last).map_values(target) == qualifying(rest).map_values(
                target,
            ) + seq![last.href->0]);
        } else {
            assert(qualifying(anchors) == qualifying(rest));
        }
        assert(targets(anchors) == qualifying(anchors).map_values(target));
    }
}

/// An anchor that does not carry the exercise icon is left out: wherever it
/// stands among the others, the links are the same with it and without it.
pub proof fn other_anchors_are_left_out(
    before: Seq<AnchorView>,
    anchor: AnchorView,
    after: Seq<AnchorView>,
)
    requires
        !qualifies(anchor),
    ensures
        links_among(before + seq![anchor] + after) == links_among(before + after),
{
    let one = seq![anchor];
    targets_of_concat(before, one);
    targets_of_concat(before + one, after);
    targets_of_concat(before, after);
    broken_link_of_concat(before, one);
    broken_link_of_concat(before + one, after);
    broken_link_of_concat(before, after);
    assert(one.drop_last().len() == 0);
    assert(targets(one) == Seq::<Seq<char>>::empty()) by {
        assert(targets(one.drop_last()) == Seq::<Seq<char>>::empty());
    }
    assert(!has_broken_link(one)) by {
        if has_broken_link(one) {
            let i = choose|i: int| 0 <= i < one.len() && qualifies(#[trigger] one[i]) && one[i].href is None;
            assert(one[i] == anchor);
        }
    }
    assert(targets(before) + targets(one) == targets(before));
}

/// Links are only ever read from a lab's own list item: a page on which no
/// list item matches the lab's label yields an error, never an empty list.
pub proof fn links_need_lab_item(page: Seq<char>, lab: Seq<char>)
    ensures
        page_links(page, lab) is Ok ==> (parsed_selector(label_selector(lab)) matches Some(item)
            && first_match(parsed_document(page), item) is Some),
        (parsed_selector(label_selector(lab)) matches Some(item) && first_match(
            parsed_document(page),
            item,
        ) is None) ==> page_links(page, lab) is Err,
{
}

/// Takes every `_s/` out of an image address.
pub fn strip_marker(src: &str) -> (out: Vec<char>)
    ensures
        out@ == without_marker(src@),
{
    let chars = chars_of(src);
    let n: usize = chars.len();
    let mut out: Vec<char> = Vec::new();
    let mut i: usize = 0;
    proof {
        assert(chars@.skip(0) == chars@);
        assert(out@ + without_marker(chars@) == without_marker(chars@));
    }
    while i < n
        invariant
            n == chars.len(),
            i <= n,
            chars@ == src@,
            out@ + without_marker(chars@.skip(i as int)) == without_marker(chars@),
        decreases n - i,
    {
        let ghost rest = chars@.skip(i as int);
        if n - i >= 3 && chars[i] == '_' && chars[i + 1] == 's' && chars[i + 2] == '/' {
            proof {
                assert(starts_with_marker(rest));
                assert(rest.skip(3) == chars@.skip(i + 3));
            }
            i = i + 3;
        } else {
            proof {
                assert(!starts_with_marker(rest));
                assert(rest.skip(1) == chars@.skip(i + 1));
                assert(out@.push(chars@[i as int]) + without_marker(rest.skip(1)) == out@ + (
                seq![rest[0]] + without_marker(rest.skip(1))));
            }
            out.push(chars[i]);
            i = i + 1;
        }
    }
    proof {
        assert(chars@.skip(n as int).len() == 0);
        assert(out@ + without_marker(chars@.skip(n as int)) == out@);
    }
    out
}

/// Decides whether an image address is that of the exercise icon.
pub fn is_exercise_icon(src: &str) -> (matches: bool)
    ensures
        matches == is_icon(src@),
{
    let stripped = strip_marker(src);
    let icon = chars_of(ICON_URL);
    same_chars(&stripped, &icon)
}

/// Picks the exercise links out of a page's candidate anchors.
pub fn collect_links(anchors: &Vec<Anchor>) -> (found: Result<Vec<String>, LinksError>)
    ensures
        links_agree(found, links_among(anchor_views(anchors@))),
{
    let ghost views = anchor_views(anchors@);
    let mut links: Vec<String> = Vec::new();
    let mut i: usize = 0;
    while i < anchors.len()
        invariant
            i <= anchors.len(),
            views == anchor_views(anchors@),
            !has_broken_link(views.take(i as int)),
            texts(links@) == targets(views.take(i as int)),
        decreases anchors.len() - i,
    {
        let anchor = &anchors[i];
        let ghost view = views[i as int];
        proof {
            assert(view == anchor@);
            views.lemma_filter_map_take_succ(|a: AnchorView| link_of(a), i as int);
        }
        let carries_icon = match &anchor.icon {
            Some(src) => is_exercise_icon(src.as_str()),
            None => false,
        };
        assert(carries_icon == qualifies(view));
        if carries_icon {
            match &anchor.href {
                Some(target) => {
                    let ghost before = links@;
                    links.push(target.clone());
                    proof {
                        assert(texts(links@) == texts(before) + seq![target@]);
                    }
                },
                None => {
                    proof {
                        assert(qualifies(views[i as int]) && views[i as int].href is None);
                    }
                    return Err(LinksError::MissingTarget);
                },
            }
        }
        proof {
            let next = views.take(i + 1);
            assert forall|k: int| 0 <= k < next.len() && qualifies(#[trigger] next[k]) implies next[k].href is Some by {
                if k < i {
                    assert(views.take(i as int)[k] == next[k]);
                }
            }
        }
        i = i + 1;
    }
    proof {
        assert(views.take(anchors.len() as int) == views);
    }
    Ok(links)
}

/// An optional borrowed text as an owned one.
fn owned(value: Option<&str>) -> (kept: Option<String>)
    ensures
        match value {
            Some(text) => text_of(kept) == Some(text@),
            None => kept is None,
        },
{
    match value {
        Some(text) => Some(text.to_owned()),
        None => None,
    }
}

/// Reads from an anchor element what the rules look at.
fn read_anchor(element: scraper::ElementRef<'_>) -> (anchor: Anchor)
    ensures
        anchor@ == anchor_at(element),
{
    let icon = match first_child(element) {
        Child::Element(image) => owned(image.attr("src")),
        _ => None,
    };
    let href = owned(element.attr("href"));
    Anchor { icon, href }
}

/// Gathers the candidate anchors of a run of activity containers.
fn gather_anchors(activities: &Vec<scraper::ElementRef<'_>>, selector: &scraper::Selector) -> (anchors:
    Vec<Anchor>)
    ensures
        anchor_views(anchors@) == anchors_under(activities@, *selector),
{
    let mut anchors: Vec<Anchor> = Vec::new();
    let mut i: usize = 0;
    while i < activities.len()
        invariant
            i <= activities.len(),
            anchor_views(anchors@) == anchors_under(activities@.take(i as int), *selector),
        decreases activities.len() - i,
    {
        let found = select_within(activities[i], selector);
        let ghost before = anchor_views(anchors@);
        let mut j: usize = 0;
        while j < found.len()
            invariant
                j <= found.len(),
                anchor_views(anchors@) == before + anchors_at(found@.take(j as int)),
            decreases found.len() - j,
        {
            let anchor = read_anchor(found[j]);
            let ghost earlier = anchors@;
            anchors.push(anchor);
            proof {
                assert(anchor_views(anchors@) == anchor_views(earlier).push(anchor@));
                assert(anchors_at(found@.take(j + 1)) == anchors_at(found@.take(j as int)).push(
                    anchor_at(found@[j as int]),
                ));
            }
            j = j + 1;
        }
        proof {
            assert(found@.take(found.len() as int) == found@);
            let upto = activities@.take(i + 1);
            assert(upto.drop_last() == activities@.take(i as int));
            assert(upto.last() == activities@[i as int]);
        }
        i = i + 1;
    }
    proof {
        assert(activities@.take(activities.len() as int) == activities@);
    }
    anchors
}

/// Builds the selector for the list item of a lab.
pub fn lab_item_selector(lab: &str) -> (selector: String)
    ensures
        selector@ == label_selector(lab@),
{
    let label = label_of(lab);
    let mut selector = String::from_str("li[aria-label=\"");
    selector.append(label.as_str());
    selector.append("\"]");
    selector
}

/// Reads the exercise links of the lab `lab` from the text of the course page.
///
/// Fails where a selector is refused, where the page has no list item for the
/// lab, and where an anchor with the exercise icon has no target; otherwise
/// returns the targets of the anchors with the exercise icon, in the order in
/// which the page's activity containers and their anchors are matched.
pub fn lab_links(page: &str, lab: &str) -> (found: Result<Vec<String>, LinksError>)
    ensures
        links_agree(found, page_links(page@, lab@)),
{
    let doc = scraper::Html::parse_document(page);
    let item_text = lab_item_selector(lab);
    let item = match scraper::Selector::parse(item_text.as_str()) {
        Ok(selector) => selector,
        Err(_) => {
            return Err(LinksError::Selector);
        },
    };
    let activity = match scraper::Selector::parse(ACTIVITY_SELECTOR) {
        Ok(selector) => selector,
        Err(_) => {
            return Err(LinksError::Selector);
        },
    };
    let anchor = match scraper::Selector::parse(ANCHOR_SELECTOR) {
        Ok(selector) => selector,
        Err(_) => {
            return Err(LinksError::Selector);
        },
    };
    let lab_item = match select_first(&doc, &item) {
        Some(element) => element,
        None => {
            return Err(LinksError::LabNotFound);
        },
    };
    let activities = select_within(lab_item, &activity);
    let anchors = gather_anchors(&activities, &anchor);
    collect_links(&anchors)
}

} // verus!
