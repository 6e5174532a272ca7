//! Monitors, and how one is found and described.

pub mod ddcutil;

use crate::text::same_text;
use vstd::prelude::*;

verus! {

/// The feature of a monitor that selects its source.
pub const FEATURE_CODE_INPUT: u8 = 0x60;

#[derive(Debug, Clone, Copy, PartialEq, Eq, Structural)]
pub enum DdcError {
    DisplayNotFound,
    FeatureCodeNotFound,
}

impl DdcError {
    pub fn message(&self) -> (message: &'static str)
        ensures
            message@ == match *self {
                DdcError::DisplayNotFound => "Display not found"@,
                DdcError::FeatureCodeNotFound => "Feature code not found"@,
            },
    {
        match *self {
            DdcError::DisplayNotFound => "Display not found",
            DdcError::FeatureCodeNotFound => "Feature code not found",
        }
    }
}

/// What a monitor has to be like. Whatever is not given does not matter.
#[derive(Debug, Clone, PartialEq, Eq)]
pub struct SearchDisplay {
    pub backend_id: Option<String>,
    pub manufacturer_id: Option<String>,
    pub model_name: Option<String>,
    pub serial_number: Option<String>,
    pub path: Option<String>,
}

impl SearchDisplay {
    /// Whether this asks for nothing.
    pub open spec fn asks_nothing(self) -> bool {
        &&& self.backend_id is None
        &&& self.manufacturer_id is None
        &&& self.model_name is None
        &&& self.serial_number is None
        &&& self.path is None
    }

    /// Whether any monitor is like the one that is searched for.
    pub open spec fn is_any(self) -> bool {
        &&& self.backend_id is None
        &&& self.manufacturer_id is None
        &&& self.model_name is None
        &&& self.serial_number is None
    }
}

impl Default for SearchDisplay {
    fn default() -> (search: Self)
        ensures
            search.asks_nothing(),
    {
        SearchDisplay {
            backend_id: None,
            manufacturer_id: None,
            model_name: None,
            serial_number: None,
            path: None,
        }
    }
}

/// What a monitor says of itself.
#[derive(Debug, Clone, PartialEq, Eq)]
pub struct DisplayInfo {
    pub id: String,
    pub manufacturer_id: Option<String>,
    pub model_name: Option<String>,
    pub serial_number: Option<String>,
}

/// Whether a text is there and is the one that is wanted.
pub open spec fn is_text(own: Option<String>, wanted: Seq<char>) -> bool {
    own matches Some(text) && text@ == wanted
}

fn has_text(own: &Option<String>, wanted: &String) -> (has: bool)
    ensures
        has == is_text(*own, wanted@),
{
    match own {
        Some(text) => same_text(text.as_str(), wanted.as_str()),
        None => false,
    }
}

/// What is asked of a monitor.
#[derive(Debug)]
pub enum Query {
    Any,
    Id(String),
    ManufacturerId(String),
    ModelName(String),
    SerialNumber(String),
    /// Both queries hold.
    And(Box<Query>, Box<Query>),
}

impl Query {
    /// Whether a query holds of a monitor.
    pub open spec fn holds(self, info: DisplayInfo) -> bool
        decreases self,
    {
        match self {
            Query::Any => true,
            Query::Id(id) => info.id@ == id@,
            Query::ManufacturerId(id) => is_text(info.manufacturer_id, id@),
            Query::ModelName(model) => is_text(info.model_name, model@),
            Query::SerialNumber(serial) => is_text(info.serial_number, serial@),
            Query::And(one, other) => one.holds(info) && other.holds(info),
        }
    }

    pub fn matches(&self, info: &DisplayInfo) -> (matches: bool)
        ensures
            matches == self.holds(*info),
        decreases self,
    {
        match self {
            Query::Any => true,
            Query::Id(id) => same_text(info.id.as_str(), id.as_str()),
            Query::ManufacturerId(id) => has_text(&info.manufacturer_id, id),
            Query::ModelName(model) => has_text(&info.model_name, model),
            Query::SerialNumber(serial) => has_text(&info.serial_number, serial),
            Query::And(one, other) => one.matches(info) && other.matches(info),
        }
    }

    /// Both a query and another one.
    fn both(self, other: Query) -> (query: Query)
        ensures
            forall|info: DisplayInfo| #[trigger]
                query.holds(info) == (self.holds(info) && other.holds(info)),
    {
        Query::And(Box::new(self), Box::new(other))
    }
}

/// Whether a monitor is like one that is searched for.
pub open spec fn is_like(info: DisplayInfo, search: SearchDisplay) -> bool {
    &&& search.backend_id matches Some(id) ==> info.id@ == id@
    &&& search.manufacturer_id matches Some(id) ==> is_text(info.manufacturer_id, id@)
    &&& search.model_name matches Some(model) ==> is_text(info.model_name, model@)
    &&& search.serial_number matches Some(serial) ==> is_text(info.serial_number, serial@)
}

/// The query for a monitor that is searched for.
pub fn query(search: &SearchDisplay) -> (query: Query)
    ensures
        forall|info: DisplayInfo| #[trigger] query.holds(info) == is_like(info, *search),
        search.is_any() ==> query is Any,
{
    let mut query = Query::Any;
    if let Some(id) = &search.backend_id {
        query = query.both(Query::Id(id.clone()));
    }
    if let Some(manufacturer) = &search.manufacturer_id {
        query = query.both(Query::ManufacturerId(manufacturer.clone()));
    }
    if let Some(model) = &search.model_name {
        query = query.both(Query::ModelName(model.clone()));
    }
    if let Some(serial) = &search.serial_number {
        query = query.both(Query::SerialNumber(serial.clone()));
    }
    query
}

/// The first source that is not ours.
pub open spec fn first_other(sources: Seq<u8>, ours: u8) -> Option<u8>
    decreases sources.len(),
{
    if sources.len() == 0 {
        None
    } else if sources[0] != ours {
        Some(sources[0])
    } else {
        first_other(sources.drop_first(), ours)
    }
}

pub fn find_guest_source(sources: &[u8], our_source: u8) -> (source: Option<u8>)
    ensures
        source == first_other(sources@, our_source),
{
    assert(sources@.skip(0) =~= sources@);
    for i in 0..sources.len()
        invariant
            first_other(sources@, our_source) == first_other(sources@.skip(i as int), our_source),
    {
        assert(sources@.skip(i as int)[0] == sources@[i as int]);
        assert(sources@.skip(i as int).drop_first() =~= sources@.skip(i + 1));
        if sources[i] != our_source {
            return Some(sources[i]);
        }
    }
    None
}

/// A source is found for the guest exactly where there is one besides ours,
/// and it is one of the monitor's.
pub proof fn guest_source_is_another(sources: Seq<u8>, ours: u8)
    ensures
        first_other(sources, ours) is None <==> forall|i: int|
            0 <= i < sources.len() ==> sources[i] == ours,
        first_other(sources, ours) matches Some(source) ==> source != ours && sources.contains(
            source,
        ),
    decreases sources.len(),
{
    if sources.len() > 0 && sources[0] == ours {
        let rest = sources.drop_first();
        guest_source_is_another(rest, ours);
        if first_other(rest, ours) is None {
            assert forall|i: int| 0 <= i < sources.len() implies sources[i] == ours by {
                if i > 0 {
                    assert(rest[i - 1] == sources[i]);
                }
            }
        } else {
            let source = first_other(rest, ours)->0;
            let i = choose|i: int| 0 <= i < rest.len() && rest[i] == source;
            assert(sources[i + 1] == source);
        }
    }
}

/// A monitor that can be told from others.
pub trait DisplayMatch: Sized {
    /// Whether the monitor is one that is searched for.
    spec fn fits(&self, search: SearchDisplay) -> bool;

    fn matches(&self, search: &SearchDisplay) -> (matches: bool)
        ensures
            matches == self.fits(*search),
    ;
}

/// A monitor that can be controlled.
pub trait DdcMonitor: DisplayMatch {
    type Error;

    /// The first monitor that is like one that is searched for, among those
    /// that are there; it fails as listing them does.
    fn search(search: &SearchDisplay) -> (monitor: Result<Option<Self>, Self::Error>)
        ensures
            monitor matches Ok(Some(m)) ==> m.fits(*search),
        default_ensures
            exists|displays: Result<Vec<Self>, Self::Error>| #[trigger]
                call_ensures(Self::enumerate, (), displays) && match displays {
                    Ok(d) => monitor matches Ok(found) && is_found(found, d@, *search),
                    Err(error) => monitor == Err::<Option<Self>, Self::Error>(error),
                },
    {
        match Self::enumerate() {
            Ok(displays) => Ok(first_match(displays, search)),
            Err(error) => Err(error),
        }
    }

    fn enumerate() -> Result<Vec<Self>, Self::Error>;

    fn sources(&mut self) -> Result<Vec<u8>, Self::Error>;

    fn get_source(&mut self) -> Result<u8, Self::Error>;

    fn set_source(&mut self, value: u8) -> Result<(), Self::Error>;

    /// The first of the monitor's sources that is not ours; it fails as asking
    /// for the sources does.
    fn find_guest_source(&mut self, our_source: u8) -> (source: Result<Option<u8>, Self::Error>)
        ensures
            source matches Ok(Some(value)) ==> value != our_source,
        default_ensures
            exists|this: &mut Self, sources: Result<Vec<u8>, Self::Error>| #[trigger]
                call_ensures(Self::sources, (this,), sources) && *this == *old(self)
                    && *final(this) == *final(self) && source == match sources {
                    Ok(s) => Ok(first_other(s@, our_source)),
                    Err(error) => Err(error),
                },
    {
        match self.sources() {
            Ok(sources) => {
                proof {
                    guest_source_is_another(sources@, our_source);
                }
                Ok(find_guest_source(sources.as_slice(), our_source))
            },
            Err(error) => Err(error),
        }
    }
}

/// The position of the first monitor that fits.
pub open spec fn is_first_match<M: DisplayMatch>(
    displays: Seq<M>,
    search: SearchDisplay,
    at: int,
) -> bool {
    &&& 0 <= at < displays.len()
    &&& displays[at].fits(search)
    &&& forall|i: int| 0 <= i < at ==> !(#[trigger] displays[i]).fits(search)
}

/// Whether a search among some monitors finds this: the first one that fits, or
/// none where none fits.
pub open spec fn is_found<M: DisplayMatch>(
    found: Option<M>,
    displays: Seq<M>,
    search: SearchDisplay,
) -> bool {
    match found {
        Some(m) => exists|at: int| #[trigger]
            is_first_match(displays, search, at) && m == displays[at],
        None => forall|i: int| 0 <= i < displays.len() ==> !(#[trigger] displays[i]).fits(search),
    }
}

/// The first monitor that fits.
pub fn first_match<M: DisplayMatch>(displays: Vec<M>, search: &SearchDisplay) -> (monitor: Option<M>)
    ensures
        is_found(monitor, displays@, *search),
{
    let ghost all = displays@;
    for display in iter: displays
        invariant
            iter.seq() == all,
            all == displays@,
            forall|i: int| 0 <= i < iter.index() ==> !(#[trigger] all[i]).fits(*search),
    {
        if display.matches(search) {
            assert(is_first_match(all, *search, iter.index() as int));
            return Some(display);
        }
    }
    None
}

/// Monitors are not controlled.
#[derive(Debug, Clone, Copy, PartialEq, Eq, Structural)]
pub struct DdcDisabled;

impl DdcDisabled {
    pub fn message(&self) -> (message: &'static str)
        ensures
            message@ == "ddc disabled"@,
    {
        "ddc disabled"
    }
}

/// Stands for the monitor where monitors are not controlled.
#[derive(Debug, Clone, Copy, PartialEq, Eq, Structural)]
pub struct DummyMonitor;

impl DummyMonitor {
    fn error() -> (error: DdcDisabled)
        ensures
            error == DdcDisabled,
    {
        DdcDisabled
    }
}

impl DisplayMatch for DummyMonitor {
    open spec fn fits(&self, search: SearchDisplay) -> bool {
        false
    }

    fn matches(&self, _search: &SearchDisplay) -> (matches: bool)
        ensures
            !matches,
    {
        false
    }
}

impl DdcMonitor for DummyMonitor {
    type Error = DdcDisabled;

    fn search(_search: &SearchDisplay) -> (monitor: Result<Option<Self>, Self::Error>)
        ensures
            monitor is Err,
    {
        Err(DummyMonitor::error())
    }

    fn enumerate() -> (monitors: Result<Vec<Self>, Self::Error>)
        ensures
            monitors is Err,
    {
        Err(DummyMonitor::error())
    }

    fn sources(&mut self) -> (sources: Result<Vec<u8>, Self::Error>)
        ensures
            sources is Err,
    {
        Err(DummyMonitor::error())
    }

    fn get_source(&mut self) -> (source: Result<u8, Self::Error>)
        ensures
            source is Err,
    {
        Err(DummyMonitor::error())
    }

    fn set_source(&mut self, _value: u8) -> (r: Result<(), Self::Error>)
        ensures
            r is Err,
    {
        Err(DummyMonitor::error())
    }

    fn find_guest_source(&mut self, _our_source: u8) -> (source: Result<Option<u8>, Self::Error>)
        ensures
            source is Err,
    {
        Err(DummyMonitor::error())
    }
}

/// A monitor, with its sources once they are known.
#[derive(Debug)]
pub struct Monitor {
    pub info: DisplayInfo,
    pub sources: Vec<u8>,
}

impl DisplayMatch for Monitor {
    open spec fn fits(&self, search: SearchDisplay) -> bool {
        is_like(self.info, search)
    }

    fn matches(&self, search: &SearchDisplay) -> (matches: bool) {
        let query = query(search);
        query.matches(&self.info)
    }
}

/// A line that names something, where it is there.
pub open spec fn named_line(name: Seq<char>, text: Option<String>) -> Seq<char> {
    match text {
        Some(text) => name + text@ + "\n"@,
        None => Seq::empty(),
    }
}

fn push_named_line(s: &mut String, name: &str, text: &Option<String>)
    ensures
        final(s)@ == old(s)@ + named_line(name@, *text),
{
    if let Some(text) = text {
        s.append(name);
        s.append(text.as_str());
        s.append("\n");
    }
    assert(s@ =~= old(s)@ + named_line(name@, *text));
}

impl Monitor {
    pub fn new(info: DisplayInfo) -> (monitor: Monitor)
        ensures
            monitor.info == info,
            monitor.sources@.len() == 0,
    {
        Monitor { info, sources: Vec::new() }
    }

    /// Whether the monitor has to be asked for its sources.
    pub fn needs_sources(&self) -> (needs: bool)
        ensures
            needs == (self.sources@.len() == 0),
    {
        self.sources.len() == 0
    }

    /// The sources of the monitor. Where none were known, those are kept that
    /// it gives for the feature that selects them; none where it does not have
    /// that feature.
    pub fn sources(&mut self, values: Option<Vec<u8>>) -> (sources: Vec<u8>)
        ensures
            sources@ == final(self).sources@,
            final(self).sources@ == if old(self).sources@.len() > 0 {
                old(self).sources@
            } else {
                match values {
                    Some(values) => values@,
                    None => Seq::empty(),
                }
            },
            final(self).info == old(self).info,
    {
        if self.sources.len() == 0 {
            self.sources = match values {
                Some(values) => values,
                None => Vec::new(),
            };
        }
        vstd::slice::slice_to_vec(self.sources.as_slice())
    }

    /// The source that the value of the feature stands for: its low byte.
    pub fn get_source(value: u16) -> (source: u8)
        ensures
            source == value % 0x100,
    {
        assert(value as u8 == value % 0x100) by (bit_vector);
        #[verifier::truncate]
        (value as u8)
    }

    /// The value of the feature that stands for a source.
    pub fn set_source(source: u8) -> (value: u16)
        ensures
            value == source,
    {
        source as u16
    }

    /// What the monitor says of itself, line by line.
    pub fn describe(&self) -> (text: String)
        ensures
            text@ == "ID: "@ + self.info.id@ + "\n"@ + named_line(
                "Manufacturer: "@,
                self.info.manufacturer_id,
            ) + named_line("Model: "@, self.info.model_name) + named_line(
                "Serial: "@,
                self.info.serial_number,
            ),
    {
        let mut text = String::from_str("ID: ");
        text.append(self.info.id.as_str());
        text.append("\n");
        push_named_line(&mut text, "Manufacturer: ", &self.info.manufacturer_id);
        push_named_line(&mut text, "Model: ", &self.info.model_name);
        push_named_line(&mut text, "Serial: ", &self.info.serial_number);
        text
    }
}

/// Whether a mark that is given is the one of a monitor.
pub open spec fn agrees(wanted: Option<String>, own: Option<String>) -> bool {
    wanted is Some ==> own is Some && own->0@ == wanted->0@
}

/// A monitor is one that is searched for exactly where each mark that is given is
/// its own; one that it does not have is not.
pub proof fn monitors_match_by_every_mark(
    monitor: Monitor,
    search: SearchDisplay,
    asked: Query,
    holds: bool,
    matches: bool,
)
    requires
        call_ensures(query, (&search,), asked),
        call_ensures(Query::matches, (&asked, &monitor.info), holds),
        call_ensures(<Monitor as DisplayMatch>::matches, (&monitor, &search), matches),
    ensures
        matches == holds,
        matches <==> {
            &&& search.backend_id is Some ==> monitor.info.id@ == search.backend_id->0@
            &&& agrees(search.manufacturer_id, monitor.info.manufacturer_id)
            &&& agrees(search.model_name, monitor.info.model_name)
            &&& agrees(search.serial_number, monitor.info.serial_number)
        },
{
    assert(asked.holds(monitor.info) == is_like(monitor.info, search));
}

/// A query holds of a monitor by the mark that it is for, and two together hold
/// where both do.
pub proof fn queries_are_about_their_mark(
    one: Query,
    other: Query,
    info: DisplayInfo,
    text: String,
    of_one: bool,
    of_other: bool,
)
    requires
        call_ensures(Query::matches, (&one, &info), of_one),
        call_ensures(Query::matches, (&other, &info), of_other),
    ensures
        one is Any ==> of_one,
        one == Query::Id(text) ==> of_one == (info.id@ == text@),
        one == Query::ManufacturerId(text) ==> of_one == (info.manufacturer_id is Some
            && info.manufacturer_id->0@ == text@),
        one == Query::ModelName(text) ==> of_one == (info.model_name is Some && info.model_name->0@
            == text@),
        one == Query::SerialNumber(text) ==> of_one == (info.serial_number is Some
            && info.serial_number->0@ == text@),
        Query::And(Box::new(one), Box::new(other)).holds(info) == (of_one && of_other),
{
}

/// The source that is found for the guest is the first one that is not ours; none
/// is found only where all of them are ours.
pub proof fn guests_get_the_first_other_source(
    sources: &[u8],
    ours: u8,
    found: Option<u8>,
)
    requires
        call_ensures(find_guest_source, (sources, ours), found),
    ensures
        found matches Some(source) ==> exists|i: int|
            {
                &&& 0 <= i < sources@.len()
                &&& #[trigger] sources@[i] == source
                &&& source != ours
                &&& forall|j: int| 0 <= j < i ==> #[trigger] sources@[j] == ours
            },
        found is None ==> forall|i: int| 0 <= i < sources@.len() ==> #[trigger] sources@[i] == ours,
{
    lemma_first_other_source(sources@, ours);
}

pub(crate) proof fn lemma_first_other_source(sources: Seq<u8>, ours: u8)
    ensures
        first_other(sources, ours) matches Some(source) ==> exists|i: int|
            {
                &&& 0 <= i < sources.len()
                &&& #[trigger] sources[i] == source
                &&& source != ours
                &&& forall|j: int| 0 <= j < i ==> #[trigger] sources[j] == ours
            },
        first_other(sources, ours) is None ==> forall|i: int|
            0 <= i < sources.len() ==> #[trigger] sources[i] == ours,
    decreases sources.len(),
{
    if sources.len() > 0 {
        if sources[0] == ours {
            let rest = sources.drop_first();
            lemma_first_other_source(rest, ours);
            if let Some(source) = first_other(rest, ours) {
                let i = choose|i: int|
                    {
                        &&& 0 <= i < rest.len()
                        &&& #[trigger] rest[i] == source
                        &&& source != ours
                        &&& forall|j: int| 0 <= j < i ==> #[trigger] rest[j] == ours
                    };
                assert(sources[i + 1] == source);
                assert forall|j: int| 0 <= j < i + 1 implies #[trigger] sources[j] == ours by {
                    if j > 0 {
                        assert(rest[j - 1] == ours);
                    }
                }
            } else {
                assert forall|i: int| 0 <= i < sources.len() implies #[trigger] sources[i]
                    == ours by {
                    if i > 0 {
                        assert(rest[i - 1] == ours);
                    }
                }
            }
        } else {
            assert(sources[0] == sources[0]);
        }
    }
}

/// Of some monitors the first one that fits is found, and none only where none
/// fits.
pub proof fn the_first_monitor_that_fits_is_found(
    displays: Vec<Monitor>,
    search: SearchDisplay,
    found: Option<Monitor>,
)
    requires
        call_ensures(first_match::<Monitor>, (displays, &search), found),
    ensures
        found matches Some(monitor) ==> exists|i: int|
            {
                &&& 0 <= i < displays@.len()
                &&& #[trigger] displays@[i] == monitor
                &&& is_like(monitor.info, search)
                &&& forall|j: int| 0 <= j < i ==> !is_like((#[trigger] displays@[j]).info, search)
            },
        found is None ==> forall|i: int|
            0 <= i < displays@.len() ==> !is_like((#[trigger] displays@[i]).info, search),
{
    if let Some(monitor) = found {
        let i = choose|i: int| #[trigger]
            is_first_match(displays@, search, i) && monitor == displays@[i];
        assert(displays@[i] == monitor);
        assert forall|j: int| 0 <= j < i implies !is_like(
            (#[trigger] displays@[j]).info,
            search,
        ) by {
            assert(!displays@[j].fits(search));
        }
    } else {
        assert forall|i: int| 0 <= i < displays@.len() implies !is_like(
            (#[trigger] displays@[i]).info,
            search,
        ) by {
            assert(!displays@[i].fits(search));
        }
    }
}

/// A monitor is asked for its sources as long as none are known; those that it gives
/// are kept, and asking again changes nothing once there are any.
pub proof fn sources_are_asked_for_once(
    before: Monitor,
    values: Option<Vec<u8>>,
    sources: Vec<u8>,
    after: Monitor,
    needs: bool,
)
    requires
        exists|this: &mut Monitor| #[trigger]
            call_ensures(Monitor::sources, (this, values), sources) && *this == before
                && *final(this) == after,
        call_ensures(Monitor::needs_sources, (&before,), needs),
    ensures
        needs <==> before.sources@.len() == 0,
        !needs ==> sources@ == before.sources@,
        needs && values is Some ==> sources@ == values->0@,
        needs && values is None ==> sources@.len() == 0,
        after.sources@ == sources@,
        after.info == before.info,
{
}

/// The source that was set is the one that is read again, whatever the high byte of
/// the value says.
pub proof fn sources_are_read_as_they_were_set(
    source: u8,
    value: u16,
    high: u8,
    read: u8,
)
    requires
        call_ensures(Monitor::set_source, (source,), value),
        call_ensures(Monitor::get_source, ((high * 0x100 + value) as u16,), read),
    ensures
        read == source,
        value == source,
{
}

/// A monitor is described by its id and by each mark that it has, each on a line of
/// its own.
pub proof fn monitors_are_described_by_their_marks(monitor: Monitor, text: String)
    requires
        call_ensures(Monitor::describe, (&monitor,), text),
    ensures
        text@ == "ID: "@ + monitor.info.id@ + "\n"@ + (match monitor.info.manufacturer_id {
            Some(id) => "Manufacturer: "@ + id@ + "\n"@,
            None => Seq::empty(),
        }) + (match monitor.info.model_name {
            Some(model) => "Model: "@ + model@ + "\n"@,
            None => Seq::empty(),
        }) + (match monitor.info.serial_number {
            Some(serial) => "Serial: "@ + serial@ + "\n"@,
            None => Seq::empty(),
        }),
{
}

} // verus!
