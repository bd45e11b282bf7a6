//! The configuration.

use vstd::prelude::*;

use crate::lists;
use crate::text;
use crate::text::same_text;

verus! {

/// The configuration.
#[derive(Debug)]
pub struct Config {
    /// The site.
    pub site_id: u64,
    /// Where metrics are served.
    pub server: ServerConfig,
    /// How often the portal is asked.
    pub refresh: RefreshConfig,
    /// How the Monitoring API is used.
    pub monitoring_api: MonitoringApiConfig,
    /// Which optimizers belong together.
    pub fields: Vec<Field>,
}

/// An address and a port.
#[derive(Debug, Clone)]
pub struct ListenAddress {
    /// The IP address, as text.
    pub ip: String,
    /// The port.
    pub port_number: u16,
}

impl ListenAddress {
    /// The port.
    pub fn port(&self) -> (r: u16)
        ensures
            r == self.port_number,
    {
        self.port_number
    }
}

/// Where metrics are served.
#[derive(Debug)]
pub struct ServerConfig {
    /// The address to listen on.
    pub listen: ListenAddress,
}

impl Default for ServerConfig {
    fn default() -> (r: ServerConfig)
        ensures
            r.listen.ip@ == "0.0.0.0"@,
            r.listen.port_number == 8888,
    {
        ServerConfig { listen: ListenAddress { ip: "0.0.0.0".to_owned(), port_number: 8888 } }
    }
}

/// How often the portal is asked.
#[derive(Debug)]
pub struct RefreshConfig {
    /// Seconds between refreshes of the optimizers.
    pub optimizer_seconds: u64,
}

impl Default for RefreshConfig {
    fn default() -> (r: RefreshConfig)
        ensures
            r.optimizer_seconds == 900,
    {
        RefreshConfig { optimizer_seconds: 900 }
    }
}

/// How the Monitoring API is used.
#[derive(Debug)]
pub struct MonitoringApiConfig {
    /// Seconds between refreshes.
    pub refresh_seconds: u64,
    /// Path of the file that keeps counters over a restart.
    pub state_file: Option<String>,
}

impl Default for MonitoringApiConfig {
    fn default() -> (r: MonitoringApiConfig)
        ensures
            r.refresh_seconds == 1800,
            r.state_file is None,
    {
        MonitoringApiConfig { refresh_seconds: 1800, state_file: None }
    }
}

/// A group of optimizers.
#[derive(Debug, Clone)]
pub struct Field {
    /// Name of the group.
    pub name: String,
    /// Serial numbers of the optimizers.
    pub optimizer_serials: Vec<String>,
}

/// What can be wrong with a configuration.
#[derive(Debug)]
pub enum ConfigError {
    /// The file cannot be read.
    Io {
        /// The file.
        path: String,
        /// What went wrong.
        message: String,
    },
    /// The file is no valid configuration.
    Parse {
        /// The file.
        path: String,
        /// What went wrong.
        message: String,
    },
    /// Two fields have the same name.
    DuplicateFieldName(String),
    /// A serial number is listed twice.
    DuplicateSerial {
        /// The serial number.
        serial: String,
        /// The field that lists it first.
        first: String,
        /// The field that lists it again.
        second: String,
    },
    /// The portal would be asked without a pause.
    ZeroRefreshInterval,
    /// The Monitoring API would be asked without a pause.
    ZeroMonitoringApiInterval,
}

/// What can be wrong with a configuration, in texts.
#[verifier::ext_equal]
pub enum ConfigErrorView {
    /// The file cannot be read.
    Io {
        /// The file.
        path: Seq<char>,
        /// What went wrong.
        message: Seq<char>,
    },
    /// The file is no valid configuration.
    Parse {
        /// The file.
        path: Seq<char>,
        /// What went wrong.
        message: Seq<char>,
    },
    /// Two fields have the same name.
    DuplicateFieldName(Seq<char>),
    /// A serial number is listed twice.
    DuplicateSerial {
        /// The serial number.
        serial: Seq<char>,
        /// The field that lists it first.
        first: Seq<char>,
        /// The field that lists it again.
        second: Seq<char>,
    },
    /// The portal would be asked without a pause.
    ZeroRefreshInterval,
    /// The Monitoring API would be asked without a pause.
    ZeroMonitoringApiInterval,
}

impl View for ConfigError {
    type V = ConfigErrorView;

    open spec fn view(&self) -> ConfigErrorView {
        match *self {
            ConfigError::Io { path, message } => ConfigErrorView::Io {
                path: path@,
                message: message@,
            },
            ConfigError::Parse { path, message } => ConfigErrorView::Parse {
                path: path@,
                message: message@,
            },
            ConfigError::DuplicateFieldName(name) => ConfigErrorView::DuplicateFieldName(name@),
            ConfigError::DuplicateSerial { serial, first, second } => {
                ConfigErrorView::DuplicateSerial {
                    serial: serial@,
                    first: first@,
                    second: second@,
                }
            },
            ConfigError::ZeroRefreshInterval => ConfigErrorView::ZeroRefreshInterval,
            ConfigError::ZeroMonitoringApiInterval => ConfigErrorView::ZeroMonitoringApiInterval,
        }
    }
}

/// The first place at which a sequence repeats what stood before.
pub open spec fn first_repeat(s: Seq<Seq<char>>) -> Option<int>
    decreases s.len(),
{
    if s.len() == 0 {
        None
    } else if first_repeat(s.drop_last()) is Some {
        first_repeat(s.drop_last())
    } else if s.drop_last().contains(s.last()) {
        Some(s.len() - 1)
    } else {
        None
    }
}

/// The first place of a text in a sequence that holds it.
pub open spec fn first_place(s: Seq<Seq<char>>, x: Seq<char>) -> int
    decreases s.len(),
{
    if s.len() == 0 || s[0] == x {
        0
    } else {
        1 + first_place(s.drop_first(), x)
    }
}

/// The names of fields.
pub open spec fn names(fields: Seq<Field>) -> Seq<Seq<char>> {
    Seq::new(fields.len(), |i: int| fields[i].name@)
}

/// A field as a list: each serial number with the name of the field.
pub open spec fn field_listing(field: Field) -> Seq<(Seq<char>, Seq<char>)> {
    Seq::new(
        field.optimizer_serials@.len(),
        |i: int| (field.optimizer_serials@[i]@, field.name@),
    )
}

/// All fields as one list: each serial number with the name of its field.
pub open spec fn listing(fields: Seq<Field>) -> Seq<(Seq<char>, Seq<char>)> {
    lists::gather(fields, |field: Field| field_listing(field))
}

/// The serial numbers of a list.
pub open spec fn serials(list: Seq<(Seq<char>, Seq<char>)>) -> Seq<Seq<char>> {
    Seq::new(list.len(), |i: int| list[i].0)
}

/// True of a field that lists a serial number.
pub open spec fn lists_serial(field: Field, serial: Seq<char>) -> bool {
    exists|i: int|
        0 <= i < field.optimizer_serials@.len() && #[trigger] field.optimizer_serials@[i]@ == serial
}

/// The name of the first field that lists a serial number, or `unassigned`.
pub open spec fn assigned_field(fields: Seq<Field>, serial: Seq<char>) -> Seq<char>
    decreases fields.len(),
{
    if fields.len() == 0 {
        "unassigned"@
    } else if lists_serial(fields[0], serial) {
        fields[0].name@
    } else {
        assigned_field(fields.drop_first(), serial)
    }
}

impl Config {
    /// What is wrong with the configuration, if anything: of several things,
    /// the first in the order of this list.
    pub open spec fn fault(self) -> Option<ConfigErrorView> {
        let list = listing(self.fields@);
        if self.refresh.optimizer_seconds == 0 {
            Some(ConfigErrorView::ZeroRefreshInterval)
        } else if self.monitoring_api.refresh_seconds == 0 {
            Some(ConfigErrorView::ZeroMonitoringApiInterval)
        } else if let Some(i) = first_repeat(names(self.fields@)) {
            Some(ConfigErrorView::DuplicateFieldName(self.fields@[i].name@))
        } else if let Some(k) = first_repeat(serials(list)) {
            Some(
                ConfigErrorView::DuplicateSerial {
                    serial: list[k].0,
                    first: list[first_place(serials(list), list[k].0)].1,
                    second: list[k].1,
                },
            )
        } else {
            None
        }
    }

    /// Turns what was read of a file into a configuration. `parse` takes the
    /// file apart.
    pub fn load<F: FnOnce(&str) -> Result<Config, String>>(
        path: &str,
        read: Result<String, String>,
        parse: F,
    ) -> (r: Result<Config, ConfigError>)
        requires
            forall|body: &str| #[trigger] parse.requires((body,)),
        ensures
            match read {
                Err(message) => {
                    &&& r is Err
                    &&& r->Err_0@ == (ConfigErrorView::Io { path: path@, message: message@ })
                },
                Ok(body) => exists|s: &str, parsed: Result<Config, String>| #[trigger]
                    parse.ensures((s,), parsed) && s@ == body@ && loaded(path@, parsed, r),
            },
    {
        let body = match read {
            Ok(body) => body,
            Err(message) => {
                return Err(ConfigError::Io { path: path.to_owned(), message });
            },
        };
        let parsed = parse(body.as_str());
        Config::check_parsed(path, parsed)
    }

    /// Turns the outcome of taking a file apart into a configuration.
    pub fn check_parsed(path: &str, parsed: Result<Config, String>) -> (r: Result<
        Config,
        ConfigError,
    >)
        ensures
            loaded(path@, parsed, r),
    {
        match parsed {
            Err(message) => Err(ConfigError::Parse { path: path.to_owned(), message }),
            Ok(config) => match config.validate() {
                Ok(()) => Ok(config),
                Err(e) => Err(e),
            },
        }
    }

    /// Finds what is wrong with the configuration.
    pub fn validate(&self) -> (r: Result<(), ConfigError>)
        ensures
            match r {
                Ok(()) => self.fault() is None,
                Err(e) => self.fault() == Some(e@),
            },
    {
        if self.refresh.optimizer_seconds == 0 {
            return Err(ConfigError::ZeroRefreshInterval);
        }
        if self.monitoring_api.refresh_seconds == 0 {
            return Err(ConfigError::ZeroMonitoringApiInterval);
        }
        let named = field_names(&self.fields);
        match repeated(&named) {
            Some((_, i)) => {
                return Err(ConfigError::DuplicateFieldName(self.fields[i].name.clone()));
            },
            None => {},
        }
        let list = field_list(&self.fields);
        let listed = listed_serials(&list);
        match repeated(&listed) {
            Some((i, k)) => Err(
                ConfigError::DuplicateSerial {
                    serial: list[k].0.to_owned(),
                    first: list[i].1.to_owned(),
                    second: list[k].1.to_owned(),
                },
            ),
            None => Ok(()),
        }
    }

    /// The name of the field that an optimizer belongs to, or `unassigned`.
    pub fn field_for(&self, serial: &str) -> (r: &str)
        ensures
            r@ == assigned_field(self.fields@, serial@),
    {
        let mut i: usize = 0;
        assert(self.fields@.skip(0) =~= self.fields@);
        while i < self.fields.len()
            invariant
                i <= self.fields.len(),
                assigned_field(self.fields@, serial@) == assigned_field(
                    self.fields@.skip(i as int),
                    serial@,
                ),
            decreases self.fields.len() - i,
        {
            let field = &self.fields[i];
            assert(self.fields@.skip(i as int)[0] == *field);
            assert(self.fields@.skip(i as int).drop_first() =~= self.fields@.skip(i + 1));
            if field.lists(serial) {
                return field.name.as_str();
            }
            i += 1;
        }
        "unassigned"
    }
}

/// What comes of a file that was taken apart: its error, or the configuration
/// unless something is wrong with it.
pub open spec fn loaded(
    path: Seq<char>,
    parsed: Result<Config, String>,
    r: Result<Config, ConfigError>,
) -> bool {
    match parsed {
        Err(message) => {
            &&& r is Err
            &&& r->Err_0@ == (ConfigErrorView::Parse { path, message: message@ })
        },
        Ok(config) => match config.fault() {
            Some(fault) => r is Err && r->Err_0@ == fault,
            None => r == Ok::<Config, ConfigError>(config),
        },
    }
}

impl Field {
    /// Tests whether the field lists a serial number.
    fn lists(&self, serial: &str) -> (r: bool)
        ensures
            r == lists_serial(*self, serial@),
    {
        let mut i: usize = 0;
        while i < self.optimizer_serials.len()
            invariant
                i <= self.optimizer_serials.len(),
                forall|k: int| 0 <= k < i ==> #[trigger] self.optimizer_serials@[k]@ != serial@,
            decreases self.optimizer_serials.len() - i,
        {
            if same_text(self.optimizer_serials[i].as_str(), serial) {
                assert(self.optimizer_serials@[i as int]@ == serial@);
                return true;
            }
            i += 1;
        }
        false
    }
}

/// The texts of a vector of pairs.
spec fn pair_texts(v: Seq<(&str, &str)>) -> Seq<(Seq<char>, Seq<char>)> {
    Seq::new(v.len(), |i: int| (v[i].0@, v[i].1@))
}

fn field_names(fields: &Vec<Field>) -> (r: Vec<&str>)
    ensures
        text::slices(r@) == names(fields@),
{
    let mut r: Vec<&str> = Vec::new();
    let mut i: usize = 0;
    while i < fields.len()
        invariant
            i <= fields.len(),
            r.len() == i,
            forall|k: int| 0 <= k < i ==> #[trigger] r@[k]@ == fields@[k].name@,
        decreases fields.len() - i,
    {
        r.push(fields[i].name.as_str());
        i += 1;
    }
    assert(text::slices(r@) =~= names(fields@));
    r
}

fn field_list(fields: &Vec<Field>) -> (r: Vec<(&str, &str)>)
    ensures
        pair_texts(r@) == listing(fields@),
{
    let ghost f = |field: Field| field_listing(field);
    let mut r: Vec<(&str, &str)> = Vec::new();
    let mut i: usize = 0;
    assert(pair_texts(r@) =~= lists::gather(fields@.take(0), f));
    while i < fields.len()
        invariant
            i <= fields.len(),
            f == (|field: Field| field_listing(field)),
            pair_texts(r@) == lists::gather(fields@.take(i as int), f),
        decreases fields.len() - i,
    {
        let field = &fields[i];
        let ghost before = pair_texts(r@);
        let ghost all = field_listing(*field);
        let mut k: usize = 0;
        assert(pair_texts(r@) =~= before + all.take(0));
        while k < field.optimizer_serials.len()
            invariant
                k <= field.optimizer_serials.len(),
                all == field_listing(*field),
                pair_texts(r@) == before + all.take(k as int),
            decreases field.optimizer_serials.len() - k,
        {
            let ghost so_far = pair_texts(r@);
            r.push((field.optimizer_serials[k].as_str(), field.name.as_str()));
            assert(pair_texts(r@) =~= so_far.push(all[k as int]));
            assert(all.take(k + 1) =~= all.take(k as int).push(all[k as int]));
            assert(pair_texts(r@) =~= before + all.take(k + 1));
            k += 1;
        }
        proof {
            assert(all.take(k as int) =~= all);
            lists::lemma_gather_step(fields@, f, i as int);
        }
        i += 1;
    }
    assert(fields@.take(i as int) =~= fields@);
    r
}

fn listed_serials<'a>(list: &Vec<(&'a str, &'a str)>) -> (r: Vec<&'a str>)
    ensures
        text::slices(r@) == serials(pair_texts(list@)),
{
    let mut r: Vec<&'a str> = Vec::new();
    let mut i: usize = 0;
    while i < list.len()
        invariant
            i <= list.len(),
            r.len() == i,
            forall|k: int| 0 <= k < i ==> #[trigger] r@[k]@ == list@[k].0@,
        decreases list.len() - i,
    {
        r.push(list[i].0);
        i += 1;
    }
    assert(text::slices(r@) =~= serials(pair_texts(list@)));
    r
}

/// Where a sequence first repeats what stood before: the first place of the
/// text, and the place of the repetition.
fn repeated(v: &Vec<&str>) -> (r: Option<(usize, usize)>)
    ensures
        match r {
            Some((i, k)) => {
                &&& i < k < v.len()
                &&& first_repeat(text::slices(v@)) == Some(k as int)
                &&& i == first_place(text::slices(v@), text::slices(v@)[k as int])
            },
            None => first_repeat(text::slices(v@)) is None,
        },
{
    let ghost all = text::slices(v@);
    let mut k: usize = 0;
    assert(all.take(0) =~= Seq::<Seq<char>>::empty());
    while k < v.len()
        invariant
            k <= v.len(),
            all == text::slices(v@),
            first_repeat(all.take(k as int)) is None,
        decreases v.len() - k,
    {
        let mut i: usize = 0;
        assert(all.take(k + 1).drop_last() =~= all.take(k as int));
        assert(all.take(k + 1).last() == all[k as int]);
        while i < k
            invariant
                i <= k < v.len(),
                all == text::slices(v@),
                first_repeat(all.take(k as int)) is None,
                all.take(k + 1).drop_last() == all.take(k as int),
                all.take(k + 1).last() == all[k as int],
                forall|j: int| 0 <= j < i ==> #[trigger] all[j] != all[k as int],
            decreases k - i,
        {
            if same_text(v[i], v[k]) {
                proof {
                    assert(all.take(k as int)[i as int] == all[k as int]);
                    assert(all.take(k as int).contains(all[k as int]));
                    lemma_first_repeat_of_prefix(all, k + 1);
                    lemma_first_place(all, all[k as int], i as int);
                }
                return Some((i, k));
            }
            i += 1;
        }
        assert(!all.take(k as int).contains(all[k as int])) by {
            if all.take(k as int).contains(all[k as int]) {
                let j = choose|j: int|
                    0 <= j < k && #[trigger] all.take(k as int)[j] == all[k as int];
                assert(all[j] == all[k as int]);
            }
        }
        k += 1;
    }
    assert(all.take(k as int) =~= all);
    None
}

/// A repetition in a prefix is the first one of the whole.
proof fn lemma_first_repeat_of_prefix(s: Seq<Seq<char>>, n: int)
    requires
        0 <= n <= s.len(),
        first_repeat(s.take(n)) is Some,
    ensures
        first_repeat(s) == first_repeat(s.take(n)),
    decreases s.len(),
{
    if n == s.len() {
        assert(s.take(n) =~= s);
    } else {
        assert(s.drop_last().take(n) =~= s.take(n));
        lemma_first_repeat_of_prefix(s.drop_last(), n);
    }
}

proof fn lemma_first_place(s: Seq<Seq<char>>, x: Seq<char>, i: int)
    requires
        0 <= i < s.len(),
        s[i] == x,
        forall|j: int| 0 <= j < i ==> #[trigger] s[j] != x,
    ensures
        first_place(s, x) == i,
    decreases i,
{
    if i > 0 {
        assert(s[0] != x);
        let rest = s.drop_first();
        assert forall|j: int| 0 <= j < i - 1 implies #[trigger] rest[j] != x by {
            assert(s[j + 1] != x);
        }
        lemma_first_place(rest, x, i - 1);
    }
}

proof fn lemma_first_repeat(s: Seq<Seq<char>>)
    ensures
        first_repeat(s) is None <==> s.no_duplicates(),
    decreases s.len(),
{
    if s.len() > 0 {
        let head = s.drop_last();
        lemma_first_repeat(head);
        if head.contains(s.last()) {
            let i = choose|i: int| 0 <= i < head.len() && head[i] == s.last();
            assert(s[i] == s[s.len() - 1]);
        }
        if first_repeat(head) is Some {
            let (i, j) = choose|i: int, j: int|
                0 <= i < head.len() && 0 <= j < head.len() && i != j && #[trigger] head[i]
                    == #[trigger] head[j];
            assert(s[i] == s[j]);
        } else if !head.contains(s.last()) {
            assert forall|i: int, j: int| 0 <= i < s.len() && 0 <= j < s.len() && i != j implies s[i]
                != s[j] by {
                if i < head.len() {
                    assert(head[i] == s[i]);
                }
                if j < head.len() {
                    assert(head[j] == s[j]);
                }
            }
        }
    }
}

/// A configuration is accepted exactly where both intervals are positive, no
/// two fields share a name, and no serial number is listed twice.
pub proof fn lemma_accepted(config: Config)
    ensures
        config.fault() is None <==> {
            &&& config.refresh.optimizer_seconds > 0
            &&& config.monitoring_api.refresh_seconds > 0
            &&& names(config.fields@).no_duplicates()
            &&& serials(listing(config.fields@)).no_duplicates()
        },
{
    lemma_first_repeat(names(config.fields@));
    lemma_first_repeat(serials(listing(config.fields@)));
}

/// Every serial number that a field lists is on the list of all fields.
proof fn lemma_listed(fields: Seq<Field>, i: int, serial: Seq<char>) -> (k: int)
    requires
        0 <= i < fields.len(),
        lists_serial(fields[i], serial),
    ensures
        0 <= k < listing(fields).len(),
        listing(fields)[k].0 == serial,
{
    let f = |field: Field| field_listing(field);
    let field = fields[i];
    let at = choose|at: int|
        0 <= at < field.optimizer_serials@.len() && #[trigger] field.optimizer_serials@[at]@
            == serial;
    let entry = field_listing(field)[at];
    assert(f(field).contains(entry));
    lists::lemma_gather_has(fields, f, i, entry);
    choose|k: int| 0 <= k < listing(fields).len() && listing(fields)[k] == entry
}

/// In an accepted configuration no two fields list the same serial number.
proof fn lemma_one_field(fields: Seq<Field>, i: int, j: int, serial: Seq<char>)
    requires
        serials(listing(fields)).no_duplicates(),
        0 <= i <= j < fields.len(),
        lists_serial(fields[i], serial),
        lists_serial(fields[j], serial),
    ensures
        i == j,
    decreases fields.len(),
{
    let head = fields.drop_last();
    let last = field_listing(fields.last());
    let all = serials(listing(fields));
    assert(listing(fields) =~= listing(head) + last);
    if i == j {
    } else if j < fields.len() - 1 {
        assert forall|a: int, b: int|
            0 <= a < serials(listing(head)).len() && 0 <= b < serials(listing(head)).len() && a
                != b implies serials(listing(head))[a] != serials(listing(head))[b] by {
            assert(all[a] == serials(listing(head))[a]);
            assert(all[b] == serials(listing(head))[b]);
        }
        assert(head[i] == fields[i] && head[j] == fields[j]);
        lemma_one_field(head, i, j, serial);
    } else {
        assert(head[i] == fields[i]);
        let k = lemma_listed(head, i, serial);
        let field = fields[j];
        let at = choose|at: int|
            0 <= at < field.optimizer_serials@.len() && #[trigger] field.optimizer_serials@[at]@
                == serial;
        assert(last[at].0 == serial);
        assert(all[k] == serial);
        assert(all[listing(head).len() + at] == serial);
    }
}

/// In an accepted configuration an optimizer belongs to the field that lists
/// it, wherever in the configuration that field stands.
pub proof fn lemma_field_of_listed(config: Config, i: int, serial: Seq<char>)
    requires
        config.fault() is None,
        0 <= i < config.fields@.len(),
        lists_serial(config.fields@[i], serial),
    ensures
        assigned_field(config.fields@, serial) == config.fields@[i].name@,
{
    let fields = config.fields@;
    lemma_accepted(config);
    assert forall|j: int| 0 <= j < i implies !lists_serial(#[trigger] fields[j], serial) by {
        if lists_serial(fields[j], serial) {
            lemma_one_field(fields, j, i, serial);
        }
    }
    lemma_assigned_at(fields, i, serial);
}

proof fn lemma_assigned_at(fields: Seq<Field>, i: int, serial: Seq<char>)
    requires
        0 <= i < fields.len(),
        lists_serial(fields[i], serial),
        forall|j: int| 0 <= j < i ==> !lists_serial(#[trigger] fields[j], serial),
    ensures
        assigned_field(fields, serial) == fields[i].name@,
    decreases i,
{
    if i > 0 {
        assert(!lists_serial(fields[0], serial));
        let rest = fields.drop_first();
        assert forall|j: int| 0 <= j < i - 1 implies !lists_serial(#[trigger] rest[j], serial) by {
            assert(!lists_serial(fields[j + 1], serial));
        }
        lemma_assigned_at(rest, i - 1, serial);
    }
}

/// An optimizer that no field lists is `unassigned`; it is not dropped.
pub proof fn lemma_field_of_unlisted(fields: Seq<Field>, serial: Seq<char>)
    requires
        forall|i: int| 0 <= i < fields.len() ==> !lists_serial(#[trigger] fields[i], serial),
    ensures
        assigned_field(fields, serial) == "unassigned"@,
    decreases fields.len(),
{
    if fields.len() > 0 {
        assert(!lists_serial(fields[0], serial));
        let rest = fields.drop_first();
        assert forall|i: int| 0 <= i < rest.len() implies !lists_serial(#[trigger] rest[i], serial) by {
            assert(!lists_serial(fields[i + 1], serial));
        }
        lemma_field_of_unlisted(rest, serial);
    }
}

/// In an accepted configuration every serial number on the list of a field
/// belongs to that field.
pub proof fn lemma_every_serial_assigned(config: Config, i: int, j: int)
    requires
        config.fault() is None,
        0 <= i < config.fields@.len(),
        0 <= j < config.fields@[i].optimizer_serials@.len(),
    ensures
        assigned_field(config.fields@, config.fields@[i].optimizer_serials@[j]@)
            == config.fields@[i].name@,
{
    lemma_field_of_listed(config, i, config.fields@[i].optimizer_serials@[j]@);
}

/// A serial number that is on no list belongs to no field.
pub proof fn lemma_unlisted_serial(fields: Seq<Field>, serial: Seq<char>)
    requires
        forall|i: int, j: int|
            0 <= i < fields.len() && 0 <= j < fields[i].optimizer_serials@.len()
                ==> #[trigger] fields[i].optimizer_serials@[j]@ != serial,
    ensures
        assigned_field(fields, serial) == "unassigned"@,
{
    lemma_field_of_unlisted(fields, serial);
}

/// A configuration is refused where two fields have one name.
pub proof fn lemma_shared_name_refused(config: Config, i: int, j: int)
    requires
        0 <= i < j < config.fields@.len(),
        config.fields@[i].name@ == config.fields@[j].name@,
    ensures
        config.fault() is Some,
{
    lemma_accepted(config);
    let all = names(config.fields@);
    assert(all[i] == all[j]);
}

/// The place of a serial number of a field on the list of all fields.
proof fn lemma_place(fields: Seq<Field>, i: int, a: int) -> (k: int)
    requires
        0 <= i < fields.len(),
        0 <= a < fields[i].optimizer_serials@.len(),
    ensures
        k == listing(fields.take(i)).len() + a,
        0 <= k < listing(fields).len(),
        listing(fields)[k] == (fields[i].optimizer_serials@[a]@, fields[i].name@),
        k < listing(fields.take(i + 1)).len() <= listing(fields).len(),
    decreases fields.len(),
{
    let f = |field: Field| field_listing(field);
    lists::lemma_gather_split(fields, f, i);
    lists::lemma_gather_step(fields, f, i);
    let before = listing(fields.take(i));
    let own = field_listing(fields[i]);
    assert(own[a] == (fields[i].optimizer_serials@[a]@, fields[i].name@));
    before.len() + a
}

proof fn lemma_listing_grows(fields: Seq<Field>, i: int, j: int)
    requires
        0 <= i <= j <= fields.len(),
    ensures
        listing(fields.take(i)).len() <= listing(fields.take(j)).len(),
    decreases j - i,
{
    if i < j {
        lemma_listing_grows(fields, i, j - 1);
        lists::lemma_gather_step(fields, |field: Field| field_listing(field), j - 1);
    }
}

/// A configuration is refused where a serial number is listed twice, in two
/// fields or in one.
pub proof fn lemma_shared_serial_refused(config: Config, i: int, a: int, j: int, b: int)
    requires
        0 <= i <= j < config.fields@.len(),
        0 <= a < config.fields@[i].optimizer_serials@.len(),
        0 <= b < config.fields@[j].optimizer_serials@.len(),
        i < j || a < b,
        config.fields@[i].optimizer_serials@[a]@ == config.fields@[j].optimizer_serials@[b]@,
    ensures
        config.fault() is Some,
{
    let fields = config.fields@;
    lemma_accepted(config);
    let k = lemma_place(fields, i, a);
    let l = lemma_place(fields, j, b);
    if i < j {
        lemma_listing_grows(fields, i + 1, j);
    }
    assert(k < l);
    let all = serials(listing(fields));
    assert(all[k] == all[l]);
}

/// Where in its field an entry of the list of all fields stands.
proof fn lemma_origin(fields: Seq<Field>, k: int) -> (r: (int, int))
    requires
        0 <= k < listing(fields).len(),
    ensures
        0 <= r.0 < fields.len(),
        0 <= r.1 < fields[r.0].optimizer_serials@.len(),
        listing(fields)[k] == (fields[r.0].optimizer_serials@[r.1]@, fields[r.0].name@),
        k == listing(fields.take(r.0)).len() + r.1,
    decreases fields.len(),
{
    let head = fields.drop_last();
    let n = fields.len() - 1;
    assert(fields.take(n) =~= head);
    assert(listing(fields) == listing(head) + field_listing(fields.last()));
    if k < listing(head).len() {
        let r = lemma_origin(head, k);
        assert(head[r.0] == fields[r.0]);
        assert(head.take(r.0) =~= fields.take(r.0));
        r
    } else {
        let a = k - listing(head).len();
        assert(field_listing(fields.last())[a] == listing(fields)[k]);
        (n, a)
    }
}

proof fn lemma_first_repeat_place(s: Seq<Seq<char>>)
    requires
        first_repeat(s) is Some,
    ensures
        ({
            let k = first_repeat(s)->0;
            &&& 0 <= k < s.len()
            &&& 0 <= first_place(s, s[k]) < k
            &&& s[first_place(s, s[k])] == s[k]
            &&& forall|i: int, j: int| 0 <= i < j < k ==> #[trigger] s[i] != #[trigger] s[j]
            &&& forall|i: int| 0 <= i < first_place(s, s[k]) ==> #[trigger] s[i] != s[k]
        }),
    decreases s.len(),
{
    let head = s.drop_last();
    if first_repeat(head) is Some {
        lemma_first_repeat_place(head);
        let k = first_repeat(head)->0;
        let at = first_place(head, head[k]);
        assert forall|i: int, j: int| 0 <= i < j < k implies #[trigger] s[i] != #[trigger] s[j] by {
            assert(head[i] != head[j]);
        }
        assert forall|i: int| 0 <= i < at implies #[trigger] s[i] != s[k] by {
            assert(head[i] != head[k]);
        }
        lemma_first_place(s, s[k], at);
    } else {
        lemma_first_repeat(head);
        let k = s.len() - 1;
        let i = choose|i: int| 0 <= i < head.len() && head[i] == s.last();
        lemma_first_place_found(s, s[k], i);
        assert forall|i: int, j: int| 0 <= i < j < k implies #[trigger] s[i] != #[trigger] s[j] by {
            assert(head[i] != head[j]);
        }
    }
}

proof fn lemma_first_place_found(s: Seq<Seq<char>>, x: Seq<char>, i: int)
    requires
        0 <= i < s.len(),
        s[i] == x,
    ensures
        0 <= first_place(s, x) <= i,
        s[first_place(s, x)] == x,
        forall|j: int| 0 <= j < first_place(s, x) ==> #[trigger] s[j] != x,
    decreases i,
{
    if s[0] != x {
        let rest = s.drop_first();
        lemma_first_place_found(rest, x, i - 1);
        assert forall|j: int| 0 <= j < first_place(s, x) implies #[trigger] s[j] != x by {
            if j > 0 {
                assert(rest[j - 1] == s[j]);
            }
        }
    }
}

/// What a refusal for a shared name says: two fields have it.
pub proof fn lemma_name_named(config: Config, name: Seq<char>)
    requires
        config.fault() == Some(ConfigErrorView::DuplicateFieldName(name)),
    ensures
        exists|i: int, j: int|
            0 <= i < j < config.fields@.len() && #[trigger] config.fields@[i].name@ == name
                && #[trigger] config.fields@[j].name@ == name,
        config.refresh.optimizer_seconds > 0,
        config.monitoring_api.refresh_seconds > 0,
{
    let all = names(config.fields@);
    lemma_first_repeat_place(all);
    let k = first_repeat(all)->0;
    let i = first_place(all, all[k]);
    assert(config.fields@[i].name@ == all[i] && config.fields@[k].name@ == all[k]);
}

/// What a refusal for a shared serial number says: the first of two fields
/// lists it, and the second, which may be the same, lists it again. No two
/// fields have one name.
pub proof fn lemma_serial_named(
    config: Config,
    serial: Seq<char>,
    first: Seq<char>,
    second: Seq<char>,
)
    requires
        config.fault() == Some(ConfigErrorView::DuplicateSerial { serial, first, second }),
    ensures
        exists|i: int, a: int, j: int, b: int|
            {
                &&& 0 <= i <= j < config.fields@.len()
                &&& 0 <= a < config.fields@[i].optimizer_serials@.len()
                &&& 0 <= b < config.fields@[j].optimizer_serials@.len()
                &&& i < j || a < b
                &&& #[trigger] config.fields@[i].optimizer_serials@[a]@ == serial
                &&& #[trigger] config.fields@[j].optimizer_serials@[b]@ == serial
                &&& config.fields@[i].name@ == first
                &&& config.fields@[j].name@ == second
            },
        forall|i: int, j: int|
            0 <= i < j < config.fields@.len() ==> (#[trigger] config.fields@[i]).name@ != (
            #[trigger] config.fields@[j]).name@,
        config.refresh.optimizer_seconds > 0,
        config.monitoring_api.refresh_seconds > 0,
{
    let fields = config.fields@;
    let list = listing(fields);
    let all = serials(list);
    lemma_first_repeat_place(all);
    let k = first_repeat(all)->0;
    let p = first_place(all, all[k]);
    let (i, a) = lemma_origin(fields, p);
    let (j, b) = lemma_origin(fields, k);
    if j < i {
        lemma_listing_grows(fields, j + 1, i);
        let x = lemma_place(fields, j, b);
    }
    assert(fields[i].optimizer_serials@[a]@ == serial);
    assert(fields[j].optimizer_serials@[b]@ == serial);
    lemma_first_repeat(names(fields));
    assert forall|i: int, j: int| 0 <= i < j < fields.len() implies (#[trigger] fields[i]).name@ != (
    #[trigger] fields[j]).name@ by {
        assert(names(fields)[i] != names(fields)[j]);
    }
}

/// A configuration with both intervals, with a name of its own for every field
/// and with every serial number listed once is accepted.
pub proof fn lemma_sound_accepted(config: Config)
    requires
        config.refresh.optimizer_seconds > 0,
        config.monitoring_api.refresh_seconds > 0,
        forall|i: int, j: int|
            0 <= i < j < config.fields@.len() ==> (#[trigger] config.fields@[i]).name@ != (
            #[trigger] config.fields@[j]).name@,
        forall|i: int, a: int, j: int, b: int|
            {
                &&& 0 <= i <= j < config.fields@.len()
                &&& 0 <= a < config.fields@[i].optimizer_serials@.len()
                &&& 0 <= b < config.fields@[j].optimizer_serials@.len()
                &&& i < j || a < b
            } ==> #[trigger] config.fields@[i].optimizer_serials@[a]@
                != #[trigger] config.fields@[j].optimizer_serials@[b]@,
    ensures
        config.fault() is None,
{
    if config.fault() is Some {
        match config.fault()->0 {
            ConfigErrorView::DuplicateFieldName(name) => {
                lemma_name_named(config, name);
                let (i, j) = choose|i: int, j: int|
                    0 <= i < j < config.fields@.len() && #[trigger] config.fields@[i].name@ == name
                        && #[trigger] config.fields@[j].name@ == name;
                assert(config.fields@[i].name@ != config.fields@[j].name@);
            },
            ConfigErrorView::DuplicateSerial { serial, first, second } => {
                lemma_serial_named(config, serial, first, second);
            },
            _ => {},
        }
    }
}

/// An interval of zero is refused before anything else, that of the portal
/// first.
pub proof fn lemma_no_pause_refused(config: Config)
    ensures
        config.refresh.optimizer_seconds == 0 <==> config.fault() == Some(
            ConfigErrorView::ZeroRefreshInterval,
        ),
        config.refresh.optimizer_seconds > 0 && config.monitoring_api.refresh_seconds == 0
            <==> config.fault() == Some(ConfigErrorView::ZeroMonitoringApiInterval),
{
}

/// What is loaded was taken apart and is sound; what is sound is loaded, as it
/// was taken apart.
pub proof fn lemma_loaded_as_parsed(
    path: Seq<char>,
    parsed: Result<Config, String>,
    r: Result<Config, ConfigError>,
)
    requires
        loaded(path, parsed, r),
    ensures
        r matches Ok(config) ==> parsed == Ok::<Config, String>(config) && config.fault() is None,
        parsed matches Ok(config) ==> (config.fault() is None ==> r == Ok::<Config, ConfigError>(
            config,
        )) && (config.fault() matches Some(fault) ==> r is Err && r->Err_0@ == fault),
        parsed matches Err(message) ==> r matches Err(ConfigError::Parse { path: p, message: m })
            && p@ == path && m@ == message@,
{
}

/// An optimizer that is on the list of a field of an accepted configuration is
/// given that field, and one that is on no list is given none.
pub proof fn lemma_field_given(config: &Config, serial: &str, field: &str)
    requires
        call_ensures(Config::field_for, (config, serial), field),
        config.fault() is None,
    ensures
        forall|i: int, j: int|
            0 <= i < config.fields@.len() && 0 <= j < config.fields@[i].optimizer_serials@.len()
                && #[trigger] config.fields@[i].optimizer_serials@[j]@ == serial@ ==> field@
                == config.fields@[i].name@,
        (forall|i: int, j: int|
            0 <= i < config.fields@.len() && 0 <= j < config.fields@[i].optimizer_serials@.len()
                ==> #[trigger] config.fields@[i].optimizer_serials@[j]@ != serial@) ==> field@
            == "unassigned"@,
{
    assert forall|i: int, j: int|
        0 <= i < config.fields@.len() && 0 <= j < config.fields@[i].optimizer_serials@.len()
            && #[trigger] config.fields@[i].optimizer_serials@[j]@ == serial@ implies field@
        == config.fields@[i].name@ by {
        lemma_every_serial_assigned(*config, i, j);
    }
    if forall|i: int, j: int|
        0 <= i < config.fields@.len() && 0 <= j < config.fields@[i].optimizer_serials@.len()
            ==> #[trigger] config.fields@[i].optimizer_serials@[j]@ != serial@ {
        lemma_unlisted_serial(config.fields@, serial@);
    }
}

/// An optimizer that several fields list belongs to the first of them.
pub proof fn lemma_first_field_wins(fields: Seq<Field>, i: int, j: int)
    requires
        0 <= i < fields.len(),
        0 <= j < fields[i].optimizer_serials@.len(),
        forall|a: int, b: int|
            0 <= a < i && 0 <= b < fields[a].optimizer_serials@.len()
                ==> #[trigger] fields[a].optimizer_serials@[b]@ != fields[i].optimizer_serials@[j]@,
    ensures
        assigned_field(fields, fields[i].optimizer_serials@[j]@) == fields[i].name@,
{
    lemma_assigned_at(fields, i, fields[i].optimizer_serials@[j]@);
}

/// A configuration is found valid exactly where both pauses are longer than
/// nothing, no two fields have one name, and no serial number is listed twice.
pub proof fn lemma_found_valid(config: &Config, r: Result<(), ConfigError>)
    requires
        call_ensures(Config::validate, (config,), r),
    ensures
        r is Ok ==> {
            &&& config.refresh.optimizer_seconds > 0
            &&& config.monitoring_api.refresh_seconds > 0
            &&& forall|i: int, j: int|
                0 <= i < j < config.fields@.len() ==> (#[trigger] config.fields@[i]).name@ != (
                #[trigger] config.fields@[j]).name@
            &&& forall|i: int, a: int, j: int, b: int|
                0 <= i <= j < config.fields@.len() && 0 <= a
                    < config.fields@[i].optimizer_serials@.len() && 0 <= b
                    < config.fields@[j].optimizer_serials@.len() && (i < j || a < b)
                    ==> #[trigger] config.fields@[i].optimizer_serials@[a]@
                    != #[trigger] config.fields@[j].optimizer_serials@[b]@
        },
        r matches Err(e) ==> config.fault() == Some(e@),
{
    if r is Ok {
        lemma_no_pause_refused(*config);
        assert forall|i: int, j: int| 0 <= i < j < config.fields@.len() implies (
        #[trigger] config.fields@[i]).name@ != (#[trigger] config.fields@[j]).name@ by {
            if config.fields@[i].name@ == config.fields@[j].name@ {
                lemma_shared_name_refused(*config, i, j);
            }
        }
        assert forall|i: int, a: int, j: int, b: int|
            0 <= i <= j < config.fields@.len() && 0 <= a
                < config.fields@[i].optimizer_serials@.len() && 0 <= b
                < config.fields@[j].optimizer_serials@.len() && (i < j || a
                < b) implies #[trigger] config.fields@[i].optimizer_serials@[a]@
            != #[trigger] config.fields@[j].optimizer_serials@[b]@ by {
            if config.fields@[i].optimizer_serials@[a]@ == config.fields@[j].optimizer_serials@[b]@ {
                lemma_shared_serial_refused(*config, i, a, j, b);
            }
        }
    }
}

/// Of several fields that share names, the first one whose name an earlier
/// field has is told.
pub proof fn lemma_first_shared_name(config: Config, i: int, j: int)
    requires
        config.refresh.optimizer_seconds > 0,
        config.monitoring_api.refresh_seconds > 0,
        0 <= i < j < config.fields@.len(),
        config.fields@[i].name@ == config.fields@[j].name@,
        forall|a: int, b: int|
            0 <= a < b < j ==> (#[trigger] config.fields@[a]).name@ != (
            #[trigger] config.fields@[b]).name@,
    ensures
        config.fault() == Some(ConfigErrorView::DuplicateFieldName(config.fields@[j].name@)),
{
    let all = names(config.fields@);
    lemma_first_repeat(all);
    assert(all[i] == all[j]);
    lemma_first_repeat_place(all);
    let k = first_repeat(all)->0;
    if k < j {
        let at = first_place(all, all[k]);
        assert(config.fields@[at].name@ == all[at] && config.fields@[k].name@ == all[k]);
    }
    assert(k == j);
}

/// Entries of the list of all fields stand in the order of the fields, and
/// within a field in its own.
proof fn lemma_places_in_order(fields: Seq<Field>, i: int, a: int, j: int, b: int)
    requires
        0 <= i <= j < fields.len(),
        0 <= a < fields[i].optimizer_serials@.len(),
        0 <= b < fields[j].optimizer_serials@.len(),
        i < j || a < b,
    ensures
        listing(fields.take(i)).len() + a < listing(fields.take(j)).len() + b,
{
    let k = lemma_place(fields, i, a);
    if i < j {
        lemma_listing_grows(fields, i + 1, j);
    }
}

/// Of several serial numbers that are listed twice, the first one that stands
/// on a list before is told, with the field that lists it first and the one that
/// lists it again.
pub proof fn lemma_first_shared_serial(config: Config, i: int, a: int, j: int, b: int)
    requires
        config.refresh.optimizer_seconds > 0,
        config.monitoring_api.refresh_seconds > 0,
        forall|x: int, y: int|
            0 <= x < y < config.fields@.len() ==> (#[trigger] config.fields@[x]).name@ != (
            #[trigger] config.fields@[y]).name@,
        0 <= i <= j < config.fields@.len(),
        0 <= a < config.fields@[i].optimizer_serials@.len(),
        0 <= b < config.fields@[j].optimizer_serials@.len(),
        i < j || a < b,
        config.fields@[i].optimizer_serials@[a]@ == config.fields@[j].optimizer_serials@[b]@,
        forall|x: int, c: int, y: int, d: int|
            {
                &&& 0 <= x <= y <= j
                &&& 0 <= c < config.fields@[x].optimizer_serials@.len()
                &&& 0 <= d < config.fields@[y].optimizer_serials@.len()
                &&& x < y || c < d
                &&& y < j || d < b
            } ==> #[trigger] config.fields@[x].optimizer_serials@[c]@
                != #[trigger] config.fields@[y].optimizer_serials@[d]@,
    ensures
        config.fault() == Some(
            ConfigErrorView::DuplicateSerial {
                serial: config.fields@[j].optimizer_serials@[b]@,
                first: config.fields@[i].name@,
                second: config.fields@[j].name@,
            },
        ),
{
    let fields = config.fields@;
    let list = listing(fields);
    let all = serials(list);
    let named = names(fields);
    lemma_first_repeat(named);
    assert forall|x: int, y: int| 0 <= x < named.len() && 0 <= y < named.len() && x
        != y implies named[x] != named[y] by {
        if x < y {
            assert(fields[x].name@ != fields[y].name@);
        } else {
            assert(fields[y].name@ != fields[x].name@);
        }
    }
    let k = lemma_place(fields, i, a);
    let l = lemma_place(fields, j, b);
    lemma_places_in_order(fields, i, a, j, b);
    lemma_first_repeat(all);
    assert(all[k] == all[l]);
    lemma_first_repeat_place(all);
    let n = first_repeat(all)->0;
    let at = first_place(all, all[n]);
    if n < l {
        lemma_distinct_before(fields, j, b, at, n);
    }
    assert(n == l);
    if at < k {
        lemma_distinct_before(fields, j, b, at, k);
    }
    assert(at == k);
}

proof fn lemma_distinct_before(fields: Seq<Field>, j: int, b: int, k: int, l: int)
    requires
        0 <= j < fields.len(),
        0 <= b < fields[j].optimizer_serials@.len(),
        0 <= k < l < listing(fields).len(),
        l < listing(fields.take(j)).len() + b,
        forall|x: int, c: int, y: int, d: int|
            {
                &&& 0 <= x <= y <= j
                &&& 0 <= c < fields[x].optimizer_serials@.len()
                &&& 0 <= d < fields[y].optimizer_serials@.len()
                &&& x < y || c < d
                &&& y < j || d < b
            } ==> #[trigger] fields[x].optimizer_serials@[c]@
                != #[trigger] fields[y].optimizer_serials@[d]@,
    ensures
        listing(fields)[k].0 != listing(fields)[l].0,
{
    let (x, c) = lemma_origin(fields, k);
    let (y, d) = lemma_origin(fields, l);
    if y < x || (y == x && d <= c) {
        if y < x || d < c {
            lemma_places_in_order(fields, y, d, x, c);
        }
    }
    if j < y || (j == y && b <= d) {
        if j < y || b < d {
            lemma_places_in_order(fields, j, b, y, d);
        }
    }
    assert(fields[x].optimizer_serials@[c]@ != fields[y].optimizer_serials@[d]@);
}

/// A file that cannot be read is told with its path and the reason; one that can
/// is loaded as it is taken apart, and is valid.
pub proof fn lemma_file_loaded<F: FnOnce(&str) -> Result<Config, String>>(
    path: &str,
    read: Result<String, String>,
    parse: F,
    r: Result<Config, ConfigError>,
)
    requires
        call_ensures(Config::load::<F>, (path, read, parse), r),
    ensures
        read is Err ==> (r matches Err(ConfigError::Io { path: p, message }) && p@ == path@
            && message@ == read->Err_0@),
        r matches Ok(config) ==> read is Ok && config.fault() is None && exists|s: &str| #[trigger]
            parse.ensures((s,), Ok(config)) && s@ == read->Ok_0@,
{
    if let Ok(body) = read {
        let (s, parsed) = choose|s: &str, parsed: Result<Config, String>| #[trigger]
            parse.ensures((s,), parsed) && s@ == body@ && loaded(path@, parsed, r);
        if r is Ok {
            assert(parse.ensures((s,), Ok(r->Ok_0)));
        }
    }
}

} // verus!
