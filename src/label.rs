use vstd::prelude::*;

use crate::systems::SystemFn;

verus! {

/// A key under which systems are registered and run.
///
/// `Named` is a label chosen by the user; `Auto` is the label a system carries
/// by its own identity, used to cache that system's state.
#[derive(Debug, PartialEq, Eq, Hash)]
pub enum SystemLabel {
    Named(String),
    Auto(SystemFn),
}

/// The mathematical value of a label: two labels are the same key iff their
/// views are equal.
pub enum LabelView {
    Named(Seq<char>),
    Auto(SystemFn),
}

impl View for SystemLabel {
    type V = LabelView;

    open spec fn view(&self) -> LabelView {
        match self {
            SystemLabel::Named(s) => LabelView::Named(s@),
            SystemLabel::Auto(f) => LabelView::Auto(*f),
        }
    }
}

impl SystemLabel {
    /// A label given by name.
    pub fn named(name: &str) -> (r: SystemLabel)
        ensures
            r@ == LabelView::Named(name@),
    {
        SystemLabel::Named(name.to_string())
    }

    /// A copy of this label, equal to it as a key.
    pub fn dyn_clone(&self) -> (r: SystemLabel)
        ensures
            r@ == self@,
    {
        match self {
            SystemLabel::Named(s) => SystemLabel::Named(s.clone()),
            SystemLabel::Auto(f) => SystemLabel::Auto(*f),
        }
    }
}

/// The views of a list of labels.
pub open spec fn label_views(ls: Seq<SystemLabel>) -> Seq<LabelView> {
    ls.map_values(|l: SystemLabel| l@)
}

/// The index from labels to the positions of the systems registered under them.
///
/// It keeps a `bevy_utils::HashMap` in a private field; what it holds is
/// `index_entries`.
#[verifier::external_body]
pub struct LabelIndex {
    map: bevy_utils::HashMap<SystemLabel, Vec<usize>>,
}

/// The entries of a label index, one position list per label.
pub uninterp spec fn index_entries(i: LabelIndex) -> Map<LabelView, Seq<usize>>;

/// Relies on `hashbrown::HashMap::default` (as `bevy_utils::HashMap`): a new map
/// is empty.
#[verifier::external_body]
pub(crate) fn index_new() -> (r: LabelIndex)
    ensures
        index_entries(r).dom() == Set::<LabelView>::empty(),
{
    LabelIndex { map: bevy_utils::HashMap::default() }
}

/// Relies on `hashbrown::HashMap::get`: the value stored under a key equal to
/// `k`, if there is one. Keys compare by the derived `PartialEq` of
/// `SystemLabel`, which is equality of views.
#[verifier::external_body]
pub(crate) fn index_get<'a>(i: &'a LabelIndex, k: &SystemLabel) -> (r: Option<&'a Vec<usize>>)
    ensures
        match r {
            Some(v) => index_entries(*i).contains_key(k@) && v@ == index_entries(*i)[k@],
            None => !index_entries(*i).contains_key(k@),
        },
{
    i.map.get(k)
}

/// Relies on `hashbrown::HashMap::insert`: afterwards `k` maps to `v`, and every
/// other key keeps its value.
#[verifier::external_body]
pub(crate) fn index_insert(i: &mut LabelIndex, k: SystemLabel, v: Vec<usize>)
    ensures
        index_entries(*final(i)) == index_entries(*old(i)).insert(k@, v@),
{
    i.map.insert(k, v);
}

} // verus!
