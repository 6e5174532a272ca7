//! Monitors by way of the ddcutil library.

use super::{DdcError, SearchDisplay};
use crate::text::same_text;
use std::collections::HashMap;
use vstd::prelude::*;
use vstd::std_specs::hash::group_hash_axioms;

verus! {

/// Which source of a monitor is meant. Whatever is not given does not matter.
#[derive(Debug, Clone, PartialEq, Eq)]
pub struct SearchInput {
    pub value: Option<u8>,
    pub name: Option<String>,
}

impl SearchInput {
    /// Whether a source is one that is meant.
    pub open spec fn means(self, value: u8, name: Seq<char>) -> bool {
        &&& self.value matches Some(v) ==> v == value
        &&& self.name matches Some(n) ==> n@ == name
    }

    pub fn is_empty(&self) -> (empty: bool)
        ensures
            empty == (self.value is None && self.name is None),
    {
        self.value.is_none() && self.name.is_none()
    }
}

/// What the library knows of a monitor before it is opened.
#[derive(Debug, Clone, PartialEq, Eq)]
pub struct DisplayInfo {
    pub manufacturer_id: String,
    pub model_name: String,
    pub serial_number: String,
    pub path: String,
}

/// Whether a text is the one that is wanted, where one is.
pub open spec fn wanted(want: Option<String>, text: Seq<char>) -> bool {
    want matches Some(w) ==> w@ == text
}

fn is_wanted(want: &Option<String>, text: &String) -> (is: bool)
    ensures
        is == wanted(*want, text@),
{
    match want {
        Some(want) => same_text(want.as_str(), text.as_str()),
        None => true,
    }
}

/// Whether a monitor is one that is searched for.
pub open spec fn is_meant(search: SearchDisplay, info: DisplayInfo) -> bool {
    &&& wanted(search.manufacturer_id, info.manufacturer_id@)
    &&& wanted(search.model_name, info.model_name@)
    &&& wanted(search.serial_number, info.serial_number@)
    &&& wanted(search.path, info.path@)
}

impl SearchDisplay {
    pub fn matches(&self, info: &DisplayInfo) -> (matches: bool)
        ensures
            matches == is_meant(*self, *info),
    {
        let matches = is_wanted(&self.manufacturer_id, &info.manufacturer_id) && is_wanted(
            &self.model_name,
            &info.model_name,
        ) && is_wanted(&self.serial_number, &info.serial_number);
        matches && is_wanted(&self.path, &info.path)
    }
}

/// A monitor that is still searched for, or one that has been opened.
#[derive(Debug)]
pub enum Monitor {
    Search(SearchDisplay),
    Display {
        info: DisplayInfo,
        input_values: HashMap<u8, String>,
        our_input: Option<u8>,
        search: SearchDisplay,
    },
}

/// The values below a bound that some sources have, but for ours, in ascending
/// order, with their names.
pub open spec fn others_below(inputs: Map<u8, String>, ours: Option<u8>, bound: nat) -> Seq<
    (u8, Seq<char>),
>
    decreases bound,
{
    if bound == 0 {
        Seq::empty()
    } else {
        let value = (bound - 1) as u8;
        let before = others_below(inputs, ours, (bound - 1) as nat);
        if inputs.contains_key(value) && ours != Some(value) {
            before.push((value, inputs[value]@))
        } else {
            before
        }
    }
}

/// The names of the values of a feature; those without a name are unknown.
pub open spec fn name_of(names: Map<u8, String>, value: u8) -> Seq<char> {
    if names.contains_key(value) {
        names[value]@
    } else {
        "Unknown"@
    }
}

/// Whether a value is given more than once.
pub open spec fn is_repeated(values: Seq<u8>, value: u8) -> bool {
    exists|i: int, j: int|
        0 <= i < j < values.len() && #[trigger] values[i] == value && #[trigger] values[j] == value
}

/// Whether some sources are those of a monitor with the given values. A name is
/// used up by the first source that has it: a value that is given again is left
/// without one.
pub open spec fn are_inputs(
    inputs: Map<u8, String>,
    values: Seq<u8>,
    names: Map<u8, String>,
) -> bool {
    &&& forall|v: u8| #[trigger] inputs.contains_key(v) <==> values.contains(v)
    &&& forall|v: u8| #[trigger]
        inputs.contains_key(v) ==> inputs[v]@ == if is_repeated(values, v) {
            "Unknown"@
        } else {
            name_of(names, v)
        }
}

impl Monitor {
    /// The sources of the monitor; none where it has not been opened.
    pub open spec fn input_map(self) -> Map<u8, String> {
        match self {
            Monitor::Search(_) => Map::empty(),
            Monitor::Display { input_values, .. } => input_values@,
        }
    }

    /// The source that is ours, where it is known.
    pub open spec fn ours(self) -> Option<u8> {
        match self {
            Monitor::Search(_) => None,
            Monitor::Display { our_input, .. } => our_input,
        }
    }

    pub fn new(search: SearchDisplay) -> (monitor: Monitor)
        ensures
            monitor == Monitor::Search(search),
    {
        Monitor::Search(search)
    }

    pub fn search(&self) -> (search: &SearchDisplay)
        ensures
            *search == match *self {
                Monitor::Search(search) => search,
                Monitor::Display { search, .. } => search,
            },
    {
        match self {
            Monitor::Search(search) => search,
            Monitor::Display { search, .. } => search,
        }
    }

    pub fn info(&self) -> (info: Option<&DisplayInfo>)
        ensures
            info is Some <==> *self is Display,
            info matches Some(i) ==> *i == self->Display_info,
    {
        match self {
            Monitor::Search(_) => None,
            Monitor::Display { info, .. } => Some(info),
        }
    }

    pub fn inputs(&self) -> (inputs: Option<&HashMap<u8, String>>)
        ensures
            inputs is Some <==> *self is Display,
            inputs matches Some(i) ==> i@ == self.input_map(),
    {
        match self {
            Monitor::Search(_) => None,
            Monitor::Display { input_values, .. } => Some(input_values),
        }
    }

    pub fn our_input(&self) -> (input: Option<u8>)
        ensures
            input == self.ours(),
    {
        match self {
            Monitor::Search(_) => None,
            Monitor::Display { our_input, .. } => *our_input,
        }
    }

    /// The sources but for ours.
    pub fn other_inputs(&self) -> (others: Vec<(u8, &str)>)
        ensures
            others@.map_values(|o: (u8, &str)| (o.0, o.1@)) == others_below(
                self.input_map(),
                self.ours(),
                256,
            ),
    {
        self.listed_inputs(self.our_input())
    }

    /// The sources but for one, in ascending order.
    fn listed_inputs(&self, but: Option<u8>) -> (listed: Vec<(u8, &str)>)
        ensures
            listed@.map_values(|o: (u8, &str)| (o.0, o.1@)) == others_below(
                self.input_map(),
                but,
                256,
            ),
    {
        broadcast use group_hash_axioms;

        let mut listed: Vec<(u8, &str)> = Vec::new();
        let ghost view = |o: (u8, &str)| (o.0, o.1@);
        if let Some(inputs) = self.inputs() {
            let mut value: u16 = 0;
            assert(listed@.map_values(view) =~= others_below(self.input_map(), but, 0));
            while value < 256
                invariant
                    value <= 256,
                    view == (|o: (u8, &str)| (o.0, o.1@)),
                    inputs@ == self.input_map(),
                    listed@.map_values(view) == others_below(
                        self.input_map(),
                        but,
                        value as nat,
                    ),
                decreases 256 - value,
            {
                broadcast use group_hash_axioms;

                let v = value as u8;
                let ghost before = listed@;
                if let Some(name) = inputs.get(&v) {
                    let ours = match but {
                        Some(but) => but == v,
                        None => false,
                    };
                    if !ours {
                        listed.push((v, name.as_str()));
                        assert(listed@.map_values(view) =~= before.map_values(view).push(
                            (v, name@),
                        ));
                    }
                }
                value = value + 1;
            }
        } else {
            proof {
                lemma_no_others(but, 256);
            }
            assert(listed@.map_values(view) =~= Seq::<(u8, Seq<char>)>::empty());
        }
        listed
    }

    /// Whether the monitor has a source that is meant. Where nothing is said of
    /// it, ours is not.
    pub open spec fn has_meant(self, search: SearchInput, value: u8) -> bool {
        &&& self.input_map().contains_key(value)
        &&& search.means(value, self.input_map()[value]@)
        &&& search.value is None && search.name is None ==> self.ours() != Some(value)
    }

    /// Whether none of the monitor's sources is meant.
    pub open spec fn has_none_meant(self, search: SearchInput) -> bool {
        forall|value: u8| #[trigger]
            self.input_map().contains_key(value) ==> !self.has_meant(search, value)
    }

    /// A source that is meant, where there is one. Where nothing is said of it,
    /// any source but ours is.
    pub fn match_input(&self, search: &SearchInput) -> (input: Option<u8>)
        ensures
            input matches Some(v) ==> self.has_meant(*search, v),
            input is None ==> self.has_none_meant(*search),
    {
        let but = if search.is_empty() {
            self.our_input()
        } else {
            None
        };
        let listed = self.listed_inputs(but);
        let ghost view = |o: (u8, &str)| (o.0, o.1@);
        let ghost inputs = self.input_map();
        proof {
            lemma_others(inputs, but, 256);
        }
        for i in 0..listed.len()
            invariant
                view == (|o: (u8, &str)| (o.0, o.1@)),
                inputs == self.input_map(),
                but == if search.value is None && search.name is None {
                    self.ours()
                } else {
                    None
                },
                listed@.map_values(view) == others_below(inputs, but, 256),
                forall|k: int|
                    0 <= k < others_below(inputs, but, 256).len() ==> {
                        let o = #[trigger] others_below(inputs, but, 256)[k];
                        inputs.contains_key(o.0) && but != Some(o.0) && o.1 == inputs[o.0]@
                    },
                forall|j: int|
                    0 <= j < i ==> !search.means(
                        (#[trigger] listed@[j]).0,
                        listed@[j].1@,
                    ),
        {
            let (value, name) = listed[i];
            proof {
                let o = others_below(inputs, but, 256)[i as int];
                assert(o == listed@.map_values(view)[i as int]);
            }
            let value_matches = match search.value {
                Some(v) => v == value,
                None => true,
            };
            let name_matches = match &search.name {
                Some(n) => same_text(n.as_str(), name),
                None => true,
            };
            if value_matches && name_matches {
                return Some(value);
            }
        }
        proof {
            assert forall|v: u8| #[trigger]
                inputs.contains_key(v) && but != Some(v) implies !search.means(v, inputs[v]@) by {
                let k = choose|k: int|
                    0 <= k < others_below(inputs, but, 256).len() && (#[trigger] others_below(
                        inputs,
                        but,
                        256,
                    )[k]).0 == v;
                assert(others_below(inputs, but, 256)[k] == listed@.map_values(view)[k]);
                assert(!search.means(listed@[k].0, listed@[k].1@));
            }
        }
        None
    }

    /// The monitor once it has been opened: its sources are the values that it
    /// gives for the feature that selects them, and the search is kept.
    pub fn from_display_info(
        info: DisplayInfo,
        values: Option<Vec<u8>>,
        names: HashMap<u8, String>,
        current: Option<u8>,
        search: Option<SearchDisplay>,
    ) -> (monitor: Result<Monitor, DdcError>)
        ensures
            values is None ==> monitor == Err::<Monitor, DdcError>(DdcError::FeatureCodeNotFound),
            values matches Some(v) ==> {
                &&& monitor matches Ok(Monitor::Display {
                    info: i,
                    input_values,
                    our_input,
                    search: s,
                })
                &&& i == info
                &&& are_inputs(input_values@, v@, names@)
                &&& our_input == current
                &&& (search matches Some(kept) ==> s == kept)
                &&& (search is None ==> s.asks_nothing())
            },
    {
        broadcast use group_hash_axioms;

        let values = match values {
            Some(values) => values,
            None => {
                return Err(DdcError::FeatureCodeNotFound);
            },
        };
        let ghost all = names@;
        let mut names = names;
        let mut input_values: HashMap<u8, String> = HashMap::new();
        for i in 0..values.len()
            invariant
                are_inputs(input_values@, values@.take(i as int), all),
                forall|v: u8| #[trigger]
                    names@.contains_key(v) <==> all.contains_key(v) && !values@.take(
                        i as int,
                    ).contains(v),
                forall|v: u8| #[trigger] names@.contains_key(v) ==> names@[v] == all[v],
        {
            broadcast use group_hash_axioms;

            let value = values[i];
            let name = match names.remove(&value) {
                Some(name) => name,
                None => String::from_str("Unknown"),
            };
            let ghost before = input_values@;
            input_values.insert(value, name);
            proof {
                let shorter = values@.take(i as int);
                let longer = values@.take(i + 1);
                assert forall|v: u8| #[trigger]
                    input_values@.contains_key(v) <==> longer.contains(v) by {
                    assert(before.contains_key(v) <==> shorter.contains(v));
                    if shorter.contains(v) {
                        let k = choose|k: int| 0 <= k < shorter.len() && shorter[k] == v;
                        assert(longer[k] == v);
                    }
                    if v == value {
                        assert(longer[i as int] == v);
                    }
                    if longer.contains(v) && v != value {
                        let k = choose|k: int| 0 <= k < longer.len() && longer[k] == v;
                        assert(shorter[k] == v);
                    }
                }
                assert forall|v: u8| #[trigger]
                    input_values@.contains_key(v) implies input_values@[v]@ == if is_repeated(
                    longer,
                    v,
                ) {
                    "Unknown"@
                } else {
                    name_of(all, v)
                } by {
                    assert(v != value ==> before.contains_key(v));
                    lemma_repeated(values@, i as int, v);
                }
                assert forall|v: u8| #[trigger] names@.contains_key(v) <==> all.contains_key(v)
                    && !longer.contains(v) by {
                    assert(input_values@.contains_key(v) <==> longer.contains(v));
                    assert(before.contains_key(v) <==> shorter.contains(v));
                }
            }
        }
        assert(values@.take(values@.len() as int) =~= values@);
        Ok(
            Monitor::Display {
                info,
                input_values,
                our_input: current,
                search: match search {
                    Some(search) => search,
                    None => SearchDisplay::default(),
                },
            },
        )
    }

    /// Whether the first of some monitors that is searched for was found, none
    /// where one has been opened; an error where none of them is searched for.
    pub open spec fn finds(
        self,
        displays: Seq<DisplayInfo>,
        found: Result<Option<usize>, DdcError>,
    ) -> bool {
        match self {
            Monitor::Search(search) => match found {
                Ok(at) => at matches Some(at) && at < displays.len() && is_meant(
                    search,
                    displays[at as int],
                ) && forall|i: int| 0 <= i < at ==> !is_meant(search, #[trigger] displays[i]),
                Err(error) => error is DisplayNotFound && forall|i: int|
                    0 <= i < displays.len() ==> !is_meant(search, #[trigger] displays[i]),
            },
            Monitor::Display { .. } => found == Ok::<Option<usize>, DdcError>(None),
        }
    }

    /// Which of some monitors to open: the first one that is searched for, none
    /// where one has been opened.
    pub fn find_display(&self, displays: &Vec<DisplayInfo>) -> (found: Result<
        Option<usize>,
        DdcError,
    >)
        ensures
            self.finds(displays@, found),
    {
        match self {
            Monitor::Search(search) => {
                for i in 0..displays.len()
                    invariant
                        forall|j: int|
                            0 <= j < i ==> !is_meant(*search, #[trigger] displays@[j]),
                        *self == Monitor::Search(*search),
                {
                    if search.matches(&displays[i]) {
                        return Ok(Some(i));
                    }
                }
                Err(DdcError::DisplayNotFound)
            },
            Monitor::Display { .. } => Ok(None),
        }
    }

    /// Takes the place of the monitor that was opened, where one was.
    pub fn to_display(&mut self, opened: Result<Option<Monitor>, DdcError>) -> (r: Result<
        (),
        DdcError,
    >)
        ensures
            r == match opened {
                Ok(_) => Ok(()),
                Err(error) => Err(error),
            },
            *final(self) == match opened {
                Ok(Some(monitor)) => monitor,
                _ => *old(self),
            },
    {
        match opened {
            Ok(Some(monitor)) => {
                *self = monitor;
                Ok(())
            },
            Ok(None) => Ok(()),
            Err(error) => Err(error),
        }
    }

    /// The monitor that commands go to, once one was opened where none had
    /// been.
    pub fn display(&mut self, opened: Result<Option<Monitor>, DdcError>) -> (info: Result<
        &DisplayInfo,
        DdcError,
    >)
        ensures
            match opened {
                Ok(_) => info == match *final(self) {
                    Monitor::Search(_) => Err(DdcError::DisplayNotFound),
                    Monitor::Display { info: i, .. } => Ok(&i),
                },
                Err(error) => info == Err::<&DisplayInfo, DdcError>(error),
            },
            *final(self) == match opened {
                Ok(Some(monitor)) => monitor,
                _ => *old(self),
            },
    {
        match self.to_display(opened) {
            Ok(()) => match &*self {
                Monitor::Search(_) => Err(DdcError::DisplayNotFound),
                Monitor::Display { info, .. } => Ok(info),
            },
            Err(error) => Err(error),
        }
    }

    /// Forgets that the monitor has been opened.
    pub fn reset_handle(&mut self)
        ensures
            *final(self) == match *old(self) {
                Monitor::Search(search) => Monitor::Search(search),
                Monitor::Display { search, .. } => Monitor::Search(search),
            },
    {
        let mut own = Monitor::Search(SearchDisplay::default());
        std::mem::swap(self, &mut own);
        *self = match own {
            Monitor::Search(search) => Monitor::Search(search),
            Monitor::Display { search, .. } => Monitor::Search(search),
        };
    }

    /// A source of an opened monitor with its name.
    pub fn get_input(&self, value: u8) -> (input: (u8, String))
        requires
            *self is Display,
        ensures
            input.0 == value,
            input.1@ == name_of(self.input_map(), value),
    {
        broadcast use group_hash_axioms;

        let name = match self.inputs() {
            Some(inputs) => match inputs.get(&value) {
                Some(name) => name.clone(),
                None => String::from_str("Unknown"),
            },
            None => String::from_str("Unknown"),
        };
        (value, name)
    }
}

impl Default for Monitor {
    fn default() -> (monitor: Self)
        ensures
            monitor matches Monitor::Search(search) && search.asks_nothing(),
    {
        Monitor::new(SearchDisplay::default())
    }
}

proof fn lemma_repeated(values: Seq<u8>, i: int, value: u8)
    requires
        0 <= i < values.len(),
    ensures
        is_repeated(values.take(i + 1), value) <==> is_repeated(values.take(i), value)
            || values[i] == value && values.take(i).contains(value),
{
    let shorter = values.take(i);
    let longer = values.take(i + 1);
    if is_repeated(shorter, value) {
        let (j, k) = choose|j: int, k: int|
            0 <= j < k < shorter.len() && #[trigger] shorter[j] == value
                && #[trigger] shorter[k] == value;
        assert(longer[j] == value && longer[k] == value);
    }
    if values[i] == value && shorter.contains(value) {
        let j = choose|j: int| 0 <= j < shorter.len() && shorter[j] == value;
        assert(longer[j] == value && longer[i] == value);
    }
    if is_repeated(longer, value) {
        let (j, k) = choose|j: int, k: int|
            0 <= j < k < longer.len() && #[trigger] longer[j] == value
                && #[trigger] longer[k] == value;
        assert(shorter[j] == value);
        if k < i {
            assert(shorter[k] == value);
        }
    }
}

proof fn lemma_no_others(but: Option<u8>, bound: nat)
    ensures
        others_below(Map::empty(), but, bound) == Seq::<(u8, Seq<char>)>::empty(),
    decreases bound,
{
    if bound > 0 {
        lemma_no_others(but, (bound - 1) as nat);
    }
}

proof fn lemma_others(inputs: Map<u8, String>, but: Option<u8>, bound: nat)
    requires
        bound <= 256,
    ensures
        forall|k: int|
            0 <= k < others_below(inputs, but, bound).len() ==> {
                let o = #[trigger] others_below(inputs, but, bound)[k];
                inputs.contains_key(o.0) && but != Some(o.0) && o.1 == inputs[o.0]@
            },
        forall|v: u8| #[trigger]
            inputs.contains_key(v) && but != Some(v) && v < bound ==> exists|k: int|
                0 <= k < others_below(inputs, but, bound).len() && (#[trigger] others_below(
                    inputs,
                    but,
                    bound,
                )[k]).0 == v,
    decreases bound,
{
    if bound > 0 {
        let all = others_below(inputs, but, bound);
        let shorter = others_below(inputs, but, (bound - 1) as nat);
        lemma_others(inputs, but, (bound - 1) as nat);
        assert forall|k: int| 0 <= k < all.len() implies {
            let o = #[trigger] all[k];
            inputs.contains_key(o.0) && but != Some(o.0) && o.1 == inputs[o.0]@
        } by {
            if k < shorter.len() {
                assert(all[k] == shorter[k]);
            }
        }
        assert forall|v: u8| #[trigger]
            inputs.contains_key(v) && but != Some(v) && v < bound implies exists|k: int|
            0 <= k < all.len() && (#[trigger] all[k]).0 == v by {
            if v < bound - 1 {
                let k = choose|k: int| 0 <= k < shorter.len() && (#[trigger] shorter[k]).0 == v;
                assert(all[k].0 == v);
            } else {
                assert(all[all.len() - 1].0 == v);
            }
        }
    }
}

/// A monitor is one that is searched for exactly where each mark that is given is
/// its own.
pub proof fn displays_match_by_every_mark(
    search: SearchDisplay,
    info: DisplayInfo,
    matches: bool,
)
    requires
        call_ensures(SearchDisplay::matches, (&search, &info), matches),
    ensures
        matches <==> {
            &&& search.manufacturer_id is Some ==> search.manufacturer_id->0@
                == info.manufacturer_id@
            &&& search.model_name is Some ==> search.model_name->0@ == info.model_name@
            &&& search.serial_number is Some ==> search.serial_number->0@ == info.serial_number@
            &&& search.path is Some ==> search.path->0@ == info.path@
        },
{
}

/// The sources but for ours are listed, each one once, in ascending order and with
/// its name.
pub proof fn other_sources_are_listed(monitor: Monitor, others: Vec<(u8, &str)>, value: u8)
    requires
        call_ensures(Monitor::other_inputs, (&monitor,), others),
    ensures
        (exists|i: int| 0 <= i < others@.len() && (#[trigger] others@[i]).0 == value)
            <==> monitor.input_map().contains_key(value) && monitor.ours() != Some(value),
        forall|i: int|
            0 <= i < others@.len() ==> (#[trigger] others@[i]).1@
                == monitor.input_map()[others@[i].0]@,
        forall|i: int, j: int|
            0 <= i < j < others@.len() ==> (#[trigger] others@[i]).0 < (#[trigger] others@[j]).0,
{
    let inputs = monitor.input_map();
    let ours = monitor.ours();
    let listed = others_below(inputs, ours, 256);
    let views = others@.map_values(|o: (u8, &str)| (o.0, o.1@));
    lemma_others(inputs, ours, 256);
    lemma_others_ascend(inputs, ours, 256);
    assert(views == listed);
    assert(views.len() == others@.len());
    assert forall|i: int| 0 <= i < others@.len() implies (#[trigger] others@[i]).1@
        == inputs[others@[i].0]@ && inputs.contains_key(others@[i].0) && ours != Some(
        others@[i].0,
    ) by {
        assert(views[i] == listed[i]);
    }
    assert forall|i: int, j: int| 0 <= i < j < others@.len() implies (#[trigger] others@[i]).0 < (
    #[trigger] others@[j]).0 by {
        assert(views[i] == listed[i] && views[j] == listed[j]);
    }
    if inputs.contains_key(value) && ours != Some(value) {
        let k = choose|k: int| 0 <= k < listed.len() && (#[trigger] listed[k]).0 == value;
        assert(views[k] == listed[k]);
        assert(others@[k].0 == value);
    }
}

proof fn lemma_others_ascend(inputs: Map<u8, String>, but: Option<u8>, bound: nat)
    requires
        bound <= 256,
    ensures
        forall|k: int|
            0 <= k < others_below(inputs, but, bound).len() ==> (#[trigger] others_below(
                inputs,
                but,
                bound,
            )[k]).0 < bound,
        forall|i: int, j: int|
            0 <= i < j < others_below(inputs, but, bound).len() ==> (#[trigger] others_below(
                inputs,
                but,
                bound,
            )[i]).0 < (#[trigger] others_below(inputs, but, bound)[j]).0,
    decreases bound,
{
    if bound > 0 {
        let all = others_below(inputs, but, bound);
        let shorter = others_below(inputs, but, (bound - 1) as nat);
        lemma_others_ascend(inputs, but, (bound - 1) as nat);
        assert forall|k: int| 0 <= k < all.len() implies (#[trigger] all[k]).0 < bound by {
            if k < shorter.len() {
                assert(all[k] == shorter[k]);
            }
        }
        assert forall|i: int, j: int| 0 <= i < j < all.len() implies (#[trigger] all[i]).0 < (
        #[trigger] all[j]).0 by {
            assert(all[i] == shorter[i]);
            if j < shorter.len() {
                assert(all[j] == shorter[j]);
            }
        }
    }
}

/// A source that is found has the value and the name that are given; where neither
/// is, it is any but ours. None is found only where there is no such source.
pub proof fn sources_are_found_by_value_and_name(
    monitor: Monitor,
    search: SearchInput,
    found: Option<u8>,
    value: u8,
)
    requires
        call_ensures(Monitor::match_input, (&monitor, &search), found),
    ensures
        ({
            let inputs = monitor.input_map();
            let fits = |v: u8|
                {
                    &&& inputs.contains_key(v)
                    &&& search.value is Some ==> search.value->0 == v
                    &&& search.name is Some ==> search.name->0@ == inputs[v]@
                    &&& search.value is None && search.name is None ==> monitor.ours() != Some(v)
                };
            &&& found is Some ==> fits(found->0)
            &&& found is None ==> !fits(value)
        }),
{
}

/// An opened monitor has exactly the sources that it gives, each with its name,
/// where it has one and is given once; the search that it was found by is kept, and
/// ours is the source that it shows. Without the feature that selects sources it is
/// not opened.
pub proof fn opened_displays_have_their_sources(
    info: DisplayInfo,
    values: Option<Vec<u8>>,
    names: HashMap<u8, String>,
    current: Option<u8>,
    search: Option<SearchDisplay>,
    opened: Result<Monitor, DdcError>,
    value: u8,
)
    requires
        call_ensures(
            Monitor::from_display_info,
            (info, values, names, current, search),
            opened,
        ),
    ensures
        opened is Ok <==> values is Some,
        opened matches Err(error) ==> error is FeatureCodeNotFound,
        opened matches Ok(monitor) ==> {
            let given = values->0@.filter(|v: u8| v == value).len();
            &&& monitor is Display
            &&& monitor->Display_info == info
            &&& monitor.ours() == current
            &&& search matches Some(kept) ==> monitor->Display_search == kept
            &&& monitor.input_map().contains_key(value) <==> given > 0
            &&& given == 1 && names@.contains_key(value) ==> monitor.input_map()[value]@
                == names@[value]@
            &&& given == 1 && !names@.contains_key(value) || given > 1
                ==> monitor.input_map()[value]@ == "Unknown"@
        },
{
    if let Some(values) = values {
        lemma_given(values@, value);
        let inputs = opened->Ok_0.input_map();
        assert(are_inputs(inputs, values@, names@));
        assert(inputs.contains_key(value) <==> values@.contains(value));
    }
}

proof fn lemma_given(values: Seq<u8>, value: u8)
    ensures
        values.filter(|v: u8| v == value).len() > 0 <==> values.contains(value),
        values.filter(|v: u8| v == value).len() > 1 <==> is_repeated(values, value),
    decreases values.len(),
{
    reveal(Seq::filter);
    if values.len() > 0 {
        let i = values.len() - 1;
        let fewer = values.drop_last();
        lemma_given(fewer, value);
        lemma_repeated(values, i, value);
        assert(values.take(i + 1) =~= values);
        assert(values.take(i) =~= fewer);
        if fewer.contains(value) {
            assert(values[fewer.index_of(value)] == value);
        }
        if values.last() == value {
            assert(values[i] == value);
        }
        if values.contains(value) && values.last() != value {
            assert(fewer[values.index_of(value)] == value);
        }
    }
}

/// A monitor that is still searched for is the first one that matches; an opened one
/// needs no search, and is searched for as before once it is forgotten.
pub proof fn displays_are_searched_for_and_forgotten(
    monitor: Monitor,
    displays: Vec<DisplayInfo>,
    found: Result<Option<usize>, DdcError>,
    forgotten: Monitor,
    search: &SearchDisplay,
    kept: &SearchDisplay,
)
    requires
        call_ensures(Monitor::find_display, (&monitor, &displays), found),
        exists|this: &mut Monitor, r: ()| #[trigger]
            call_ensures(Monitor::reset_handle, (this,), r) && *this == monitor && *final(this)
                == forgotten,
        call_ensures(Monitor::search, (&monitor,), search),
        call_ensures(Monitor::search, (&forgotten,), kept),
    ensures
        forgotten is Search,
        *kept == *search,
        monitor is Display <==> found == Ok::<Option<usize>, DdcError>(None),
        found matches Ok(Some(at)) ==> {
            &&& at < displays@.len()
            &&& is_meant(*search, displays@[at as int])
            &&& forall|i: int| 0 <= i < at ==> !is_meant(*search, #[trigger] displays@[i])
        },
        found matches Err(error) ==> {
            &&& error is DisplayNotFound
            &&& forall|i: int|
                0 <= i < displays@.len() ==> !is_meant(*search, #[trigger] displays@[i])
        },
{
    assert(monitor matches Monitor::Search(own) ==> own == *search);
}

/// The monitor that was opened takes the place of the one that was searched for;
/// where none was, or opening it failed, nothing changes.
pub proof fn opened_displays_take_their_place(
    before: Monitor,
    opened: Result<Option<Monitor>, DdcError>,
    r: Result<(), DdcError>,
    after: Monitor,
)
    requires
        exists|this: &mut Monitor| #[trigger]
            call_ensures(Monitor::to_display, (this, opened), r) && *this == before && *final(this)
                == after,
    ensures
        opened matches Ok(Some(monitor)) ==> after == monitor,
        !(opened is Ok && opened->Ok_0 is Some) ==> after == before,
        r is Ok <==> opened is Ok,
        opened matches Err(error) ==> r == Err::<(), DdcError>(error),
{
}

/// A source of an opened monitor is told with its name, or as unknown.
pub proof fn sources_are_told_by_name(monitor: Monitor, value: u8, input: (u8, String))
    requires
        monitor is Display,
        call_ensures(Monitor::get_input, (&monitor, value), input),
    ensures
        input.0 == value,
        monitor.input_map().contains_key(value) ==> input.1@ == monitor.input_map()[value]@,
        !monitor.input_map().contains_key(value) ==> input.1@ == "Unknown"@,
{
}

/// An opened monitor tells what it is and which source is ours; one that is still
/// searched for tells neither.
pub proof fn opened_displays_tell_of_themselves(
    monitor: Monitor,
    info: Option<&DisplayInfo>,
    inputs: Option<&HashMap<u8, String>>,
    ours: Option<u8>,
    empty: bool,
    search: SearchInput,
)
    requires
        call_ensures(Monitor::info, (&monitor,), info),
        call_ensures(Monitor::inputs, (&monitor,), inputs),
        call_ensures(Monitor::our_input, (&monitor,), ours),
        call_ensures(SearchInput::is_empty, (&search,), empty),
    ensures
        monitor is Search ==> info is None && inputs is None && ours is None,
        monitor matches Monitor::Display { info: own, input_values, our_input, .. } ==> {
            &&& info is Some && *info->0 == own
            &&& inputs is Some && inputs->0@ == input_values@
            &&& ours == our_input
        },
        empty <==> search.value is None && search.name is None,
{
}

} // verus!
