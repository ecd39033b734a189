//! The stored configuration: printers by id, the active printer, settings,
//! the single-printer connection file, and print-history records.

use vstd::prelude::*;
use crate::text::{owned, str_eq};

verus! {

/// A printer known to the monitor.
#[derive(Debug)]
pub struct PrinterConfig {
    pub host: String,
    pub serial: String,
    pub access_code: String,
    pub name: String,
}

#[verifier::ext_equal]
pub struct PrinterConfigView {
    pub host: Seq<char>,
    pub serial: Seq<char>,
    pub access_code: Seq<char>,
    pub name: Seq<char>,
}

impl View for PrinterConfig {
    type V = PrinterConfigView;

    open spec fn view(&self) -> PrinterConfigView {
        PrinterConfigView {
            host: self.host@,
            serial: self.serial@,
            access_code: self.access_code@,
            name: self.name@,
        }
    }
}

impl PrinterConfig {
    /// A copy with the same contents.
    pub fn copy(&self) -> (r: PrinterConfig)
        ensures
            r == *self,
    {
        PrinterConfig {
            host: self.host.clone(),
            serial: self.serial.clone(),
            access_code: self.access_code.clone(),
            name: self.name.clone(),
        }
    }

    /// The printer a connection file describes, with an empty name.
    pub fn from_persisted(p: PersistedConfig) -> (r: PrinterConfig)
        ensures
            r@ == (PrinterConfigView {
                host: p.host@,
                serial: p.serial@,
                access_code: p.access_code@,
                name: Seq::empty(),
            }),
    {
        PrinterConfig { host: p.host, serial: p.serial, access_code: p.access_code, name: String::new() }
    }
}

/// The connection file: where the one printer the monitor watches is.
#[derive(Debug)]
pub struct PersistedConfig {
    pub host: String,
    pub serial: String,
    pub access_code: String,
}

#[verifier::ext_equal]
pub struct PersistedConfigView {
    pub host: Seq<char>,
    pub serial: Seq<char>,
    pub access_code: Seq<char>,
}

impl View for PersistedConfig {
    type V = PersistedConfigView;

    open spec fn view(&self) -> PersistedConfigView {
        PersistedConfigView { host: self.host@, serial: self.serial@, access_code: self.access_code@ }
    }
}

impl Default for PersistedConfig {
    /// No printer: every field empty.
    fn default() -> (r: PersistedConfig)
        ensures
            r@ == (PersistedConfigView { host: Seq::empty(), serial: Seq::empty(), access_code: Seq::empty() }),
    {
        PersistedConfig { host: String::new(), serial: String::new(), access_code: String::new() }
    }
}

/// The application settings.
#[derive(Debug, Clone, Copy)]
pub struct AppSettings {
    pub check_interval: u64,
    pub notification_enabled: bool,
    pub start_minimized: bool,
    pub auto_connect: bool,
}

impl Default for AppSettings {
    /// A six-second check interval, notifications on, not minimised at start,
    /// connecting automatically.
    fn default() -> (r: AppSettings)
        ensures
            r.check_interval == 6,
            r.notification_enabled,
            !r.start_minimized,
            r.auto_connect,
    {
        AppSettings { check_interval: 6, notification_enabled: true, start_minimized: false, auto_connect: true }
    }
}

/// The printers by id as a map: entries are inserted in order, a later entry
/// for an id replacing an earlier one.
pub open spec fn printers_map(entries: Seq<(String, PrinterConfig)>) -> Map<Seq<char>, PrinterConfigView>
    decreases entries.len(),
{
    if entries.len() == 0 {
        Map::empty()
    } else {
        printers_map(entries.drop_last()).insert(entries.last().0@, entries.last().1@)
    }
}

/// The application configuration.
#[derive(Debug)]
pub struct AppConfig {
    /// The printers by id, in insertion order.
    pub printers: Vec<(String, PrinterConfig)>,
    pub active_printer: Option<String>,
    pub settings: AppSettings,
}

#[verifier::ext_equal]
pub struct AppConfigView {
    pub printers: Map<Seq<char>, PrinterConfigView>,
    pub active_printer: Option<Seq<char>>,
    pub settings: AppSettings,
}

pub open spec fn opt_view(o: Option<String>) -> Option<Seq<char>> {
    match o {
        Some(s) => Some(s@),
        None => None,
    }
}

impl View for AppConfig {
    type V = AppConfigView;

    open spec fn view(&self) -> AppConfigView {
        AppConfigView {
            printers: printers_map(self.printers@),
            active_printer: opt_view(self.active_printer),
            settings: self.settings,
        }
    }
}

impl Default for AppConfig {
    /// No printers, none active, default settings.
    fn default() -> (r: AppConfig)
        ensures
            r@.printers == Map::<Seq<char>, PrinterConfigView>::empty(),
            r@.active_printer is None,
            r.settings.check_interval == 6,
            r.settings.notification_enabled,
            !r.settings.start_minimized,
            r.settings.auto_connect,
    {
        AppConfig { printers: Vec::new(), active_printer: None, settings: AppSettings::default() }
    }
}

// ── The printer table ────────────────────────────────────────────────────────

/// The entries whose id is not `k`, in order.
pub open spec fn entries_without(e: Seq<(String, PrinterConfig)>, k: Seq<char>) -> Seq<(String, PrinterConfig)>
    decreases e.len(),
{
    if e.len() == 0 {
        e
    } else if e.last().0@ == k {
        entries_without(e.drop_last(), k)
    } else {
        entries_without(e.drop_last(), k).push(e.last())
    }
}

/// An id is in the table exactly where some entry has it.
pub proof fn lemma_printers_dom(e: Seq<(String, PrinterConfig)>, k: Seq<char>)
    ensures
        printers_map(e).dom().contains(k) <==> exists|j: int| 0 <= j < e.len() && (#[trigger] e[j]).0@ == k,
    decreases e.len(),
{
    if e.len() > 0 {
        lemma_printers_dom(e.drop_last(), k);
        if printers_map(e.drop_last()).dom().contains(k) {
            let j = choose|j: int| 0 <= j < e.drop_last().len() && (#[trigger] e.drop_last()[j]).0@ == k;
            assert(e[j] == e.drop_last()[j]);
        }
        if exists|j: int| 0 <= j < e.len() && (#[trigger] e[j]).0@ == k {
            let j = choose|j: int| 0 <= j < e.len() && (#[trigger] e[j]).0@ == k;
            if j < e.len() - 1 {
                assert(e.drop_last()[j] == e[j]);
            }
        }
    }
}

/// The table maps an id to the value of the last entry that has it.
pub proof fn lemma_printers_last(e: Seq<(String, PrinterConfig)>, i: int, k: Seq<char>)
    requires
        0 <= i < e.len(),
        e[i].0@ == k,
        forall|j: int| i < j < e.len() ==> (#[trigger] e[j]).0@ != k,
    ensures
        printers_map(e).dom().contains(k),
        printers_map(e)[k] == e[i].1@,
    decreases e.len(),
{
    if i < e.len() - 1 {
        assert(e.last() == e[e.len() - 1]);
        lemma_printers_last(e.drop_last(), i, k);
    }
}

/// Taking out every entry with id `k` takes `k` out of the table.
pub proof fn lemma_printers_without(e: Seq<(String, PrinterConfig)>, k: Seq<char>)
    ensures
        printers_map(entries_without(e, k)) =~= printers_map(e).remove(k),
    decreases e.len(),
{
    if e.len() > 0 {
        lemma_printers_without(e.drop_last(), k);
        if e.last().0@ != k {
            let w = entries_without(e.drop_last(), k);
            assert(w.push(e.last()).drop_last() =~= w);
            assert(w.push(e.last()).last() == e.last());
        }
    }
}

/// The index of the last entry with id `id`.
fn last_index_of(entries: &Vec<(String, PrinterConfig)>, id: &str) -> (r: Option<usize>)
    ensures
        match r {
            Some(i) => {
                &&& i < entries@.len()
                &&& entries@[i as int].0@ == id@
                &&& forall|j: int| i < j < entries@.len() ==> (#[trigger] entries@[j]).0@ != id@
            },
            None => forall|j: int| 0 <= j < entries@.len() ==> (#[trigger] entries@[j]).0@ != id@,
        },
{
    let mut i: usize = entries.len();
    while i > 0
        invariant
            i <= entries@.len(),
            forall|j: int| i <= j < entries@.len() ==> (#[trigger] entries@[j]).0@ != id@,
        decreases i,
    {
        if str_eq(entries[i - 1].0.as_str(), id) {
            return Some(i - 1);
        }
        i = i - 1;
    }
    None
}

/// Takes every entry with id `id` out of the table.
fn remove_entries(entries: &mut Vec<(String, PrinterConfig)>, id: &str)
    ensures
        final(entries)@ == entries_without(old(entries)@, id@),
{
    let mut rest: Vec<(String, PrinterConfig)> = Vec::new();
    std::mem::swap(&mut rest, entries);
    let n = rest.len();
    let ghost e = rest@;
    let mut kept: Vec<(String, PrinterConfig)> = Vec::new();
    proof {
        assert(e.take(0) =~= Seq::<(String, PrinterConfig)>::empty());
        assert(e.skip(0) =~= e);
    }
    let mut i: usize = 0;
    while i < n
        invariant
            n == e.len(),
            i <= n,
            rest@ == e.skip(i as int),
            kept@ == entries_without(e.take(i as int), id@),
        decreases n - i,
    {
        let item = rest.remove(0);
        assert(item == e[i as int]);
        assert(rest@ =~= e.skip(i + 1));
        assert(e.take(i + 1).drop_last() =~= e.take(i as int));
        assert(e.take(i + 1).last() == e[i as int]);
        if !str_eq(item.0.as_str(), id) {
            kept.push(item);
        }
        i = i + 1;
    }
    assert(e.take(n as int) =~= e);
    *entries = kept;
}

fn insert_entry(entries: &mut Vec<(String, PrinterConfig)>, id: String, printer: PrinterConfig)
    ensures
        printers_map(final(entries)@) =~= printers_map(old(entries)@).insert(id@, printer@),
{
    remove_entries(entries, id.as_str());
    proof {
        lemma_printers_without(old(entries)@, id@);
    }
    let ghost before = entries@;
    entries.push((id, printer));
    proof {
        assert(entries@.drop_last() =~= before);
    }
}

fn copy_entries(entries: &Vec<(String, PrinterConfig)>) -> (r: Vec<(String, PrinterConfig)>)
    ensures
        r@ == entries@,
{
    let n = entries.len();
    let mut r: Vec<(String, PrinterConfig)> = Vec::new();
    let mut i: usize = 0;
    while i < n
        invariant
            n == entries@.len(),
            i <= n,
            r@ == entries@.take(i as int),
        decreases n - i,
    {
        let item = (entries[i].0.clone(), entries[i].1.copy());
        r.push(item);
        assert(entries@.take(i + 1) =~= entries@.take(i as int).push(entries@[i as int]));
        i = i + 1;
    }
    assert(entries@.take(n as int) =~= entries@);
    r
}

fn copy_opt_string(o: &Option<String>) -> (r: Option<String>)
    ensures
        r == *o,
{
    match o {
        Some(s) => Some(s.clone()),
        None => None,
    }
}

/// The configuration after `add_printer(id, p)`.
pub open spec fn after_add_printer(c: AppConfigView, id: Seq<char>, p: PrinterConfigView) -> AppConfigView {
    AppConfigView {
        printers: c.printers.insert(id, p),
        active_printer: match c.active_printer {
            Some(a) => Some(a),
            None => Some(id),
        },
        settings: c.settings,
    }
}

/// `r` is a configuration `remove_printer(id)` can leave behind: `id` is gone;
/// where it was active, some remaining printer (or, with none left, no
/// printer) is active; otherwise the active printer is unchanged.
pub open spec fn removal_result(c: AppConfigView, id: Seq<char>, r: AppConfigView) -> bool {
    &&& r.printers == c.printers.remove(id)
    &&& r.settings == c.settings
    &&& if c.active_printer == Some(id) {
        match r.active_printer {
            Some(k) => r.printers.dom().contains(k),
            None => r.printers.dom() == Set::<Seq<char>>::empty(),
        }
    } else {
        r.active_printer == c.active_printer
    }
}

/// The configuration after `set_active_printer(id)`.
pub open spec fn after_set_active(c: AppConfigView, id: Seq<char>) -> AppConfigView {
    if c.printers.dom().contains(id) {
        AppConfigView { active_printer: Some(id), ..c }
    } else {
        c
    }
}

/// The configuration after `update_printer_config(id, p)`.
pub open spec fn after_update_printer(c: AppConfigView, id: Seq<char>, p: PrinterConfigView) -> AppConfigView {
    if c.printers.dom().contains(id) {
        AppConfigView { printers: c.printers.insert(id, p), ..c }
    } else {
        c
    }
}

/// The active printer, where there is one, is a known printer.
pub open spec fn active_is_known(c: AppConfigView) -> bool {
    match c.active_printer {
        Some(a) => c.printers.dom().contains(a),
        None => true,
    }
}

/// A copy of the configuration.
pub fn get_app_config(config: &AppConfig) -> (r: AppConfig)
    ensures
        r@ == config@,
{
    AppConfig {
        printers: copy_entries(&config.printers),
        active_printer: copy_opt_string(&config.active_printer),
        settings: config.settings,
    }
}

/// Adds (or replaces) the printer `id`; where no printer is active, it
/// becomes the active one.
pub fn add_printer(config: &mut AppConfig, id: String, printer: PrinterConfig)
    ensures
        final(config)@ == after_add_printer(old(config)@, id@, printer@),
{
    let key = id.clone();
    insert_entry(&mut config.printers, key, printer);
    if config.active_printer.is_none() {
        config.active_printer = Some(id);
    }
}

/// Removes the printer `id`. Where it was the active printer, one of the
/// remaining printers (if any) becomes active.
pub fn remove_printer(config: &mut AppConfig, id: &str)
    ensures
        removal_result(old(config)@, id@, final(config)@),
{
    remove_entries(&mut config.printers, id);
    proof {
        lemma_printers_without(old(config).printers@, id@);
    }
    let was_active = match &config.active_printer {
        Some(a) => str_eq(a.as_str(), id),
        None => false,
    };
    if was_active {
        if config.printers.len() > 0 {
            let first = config.printers[0].0.clone();
            proof {
                lemma_printers_dom(config.printers@, config.printers@[0].0@);
            }
            config.active_printer = Some(first);
        } else {
            config.active_printer = None;
            proof {
                assert forall|k: Seq<char>| !printers_map(config.printers@).dom().contains(k) by {
                    lemma_printers_dom(config.printers@, k);
                }
                assert(printers_map(config.printers@).dom() =~= Set::<Seq<char>>::empty());
            }
        }
    }
}

/// Makes `id` the active printer, where it is a known printer.
pub fn set_active_printer(config: &mut AppConfig, id: String)
    ensures
        final(config)@ == after_set_active(old(config)@, id@),
{
    let known = last_index_of(&config.printers, id.as_str());
    proof {
        lemma_printers_dom(config.printers@, id@);
    }
    if known.is_some() {
        config.active_printer = Some(id);
    }
}

/// The printer `id`, where it is known.
pub fn get_printer_config(config: &AppConfig, id: &str) -> (r: Option<PrinterConfig>)
    ensures
        match r {
            Some(p) => config@.printers.dom().contains(id@) && p@ == config@.printers[id@],
            None => !config@.printers.dom().contains(id@),
        },
{
    proof {
        lemma_printers_dom(config.printers@, id@);
    }
    match last_index_of(&config.printers, id) {
        Some(i) => {
            proof {
                lemma_printers_last(config.printers@, i as int, id@);
            }
            Some(config.printers[i].1.copy())
        },
        None => None,
    }
}

/// Replaces the printer `id`, where it is a known printer.
pub fn update_printer_config(config: &mut AppConfig, id: &str, printer: PrinterConfig)
    ensures
        final(config)@ == after_update_printer(old(config)@, id@, printer@),
{
    proof {
        lemma_printers_dom(config.printers@, id@);
    }
    if last_index_of(&config.printers, id).is_some() {
        insert_entry(&mut config.printers, owned(id), printer);
    }
}

// ── Files ────────────────────────────────────────────────────────────────────

/// A file name that is one plain path component: no separator of any
/// platform and no drive colon.
pub open spec fn is_plain_file_name(name: Seq<char>) -> bool {
    forall|i: int| 0 <= i < name.len() ==> name[i] != '/' && name[i] != '\\' && name[i] != ':'
}

/// `dir` starts with the Windows verbatim prefix `\\?\`.
pub open spec fn is_verbatim(dir: Seq<char>) -> bool {
    dir.len() >= 4 && dir.take(4) == seq!['\\', '\\', '?', '\\']
}

/// `dir` is a bare Windows drive such as `C:`.
pub open spec fn is_bare_drive(dir: Seq<char>) -> bool {
    &&& dir.len() == 2
    &&& dir[1] == ':'
    &&& (('a' <= dir[0] && dir[0] <= 'z') || ('A' <= dir[0] && dir[0] <= 'Z'))
}

/// `path` ends with `name`.
pub open spec fn ends_with(path: Seq<char>, name: Seq<char>) -> bool {
    path.len() >= name.len() && path.skip(path.len() - name.len()) == name
}

/// `path` is what joining the plain file name `name` onto `dir` gives on
/// Unix or on Windows. It always ends with `name`. Unless `dir` carries a
/// verbatim prefix: an empty `dir` gives `name` itself; a `dir` that ends
/// in `/` gives `dir` and `name` with nothing between; a `dir` that ends in
/// `\` or is a bare drive gets nothing between on Windows and `/` on Unix;
/// any other `dir` gets one separator, `/` on Unix and `\` on Windows.
pub open spec fn joined_path(dir: Seq<char>, name: Seq<char>, path: Seq<char>) -> bool {
    &&& ends_with(path, name)
    &&& !is_verbatim(dir) ==> {
        if dir.len() == 0 {
            path == name
        } else if dir.last() == '/' {
            path == dir + name
        } else if dir.last() == '\\' || is_bare_drive(dir) {
            path == dir + name || path == dir + seq!['/'] + name
        } else {
            path == dir + seq!['/'] + name || path == dir + seq!['\\'] + name
        }
    }
}

/// `path` is `dir`, at most one separator, then `name`, and `name` is its
/// last component: nothing stands before it, or a `/`, a `\` or a drive
/// colon does.
pub open spec fn lies_in(dir: Seq<char>, name: Seq<char>, path: Seq<char>) -> bool {
    &&& (path == dir + name || path == dir + seq!['/'] + name || path == dir + seq!['\\'] + name)
    &&& (path.len() == name.len() || {
        let before = path[path.len() - name.len() - 1];
        before == '/' || before == '\\' || before == ':'
    })
}

/// `std::path::Path::join` of a directory and a plain file name, as
/// `PathBuf::push` does it: a separator is added unless the directory is
/// empty, already ends in a separator or is a bare drive; the separator is
/// `/` on Unix and `\` on Windows, where `\` also counts as one at the end.
/// A directory with a verbatim prefix (`\\?\`) is rebuilt from its
/// components on Windows (`.` and `..` dropped, repeated separators merged),
/// so of that case only that the result ends with the name is claimed. Both
/// arguments are UTF-8 and the join adds at most an ASCII separator, so the
/// lossy conversion back to a string loses nothing.
#[verifier::external_body]
fn join_file_name(dir: &str, name: &str) -> (r: String)
    requires
        is_plain_file_name(name@),
        name@.len() > 0,
        name@ != seq!['.'],
        name@ != seq!['.', '.'],
    ensures
        joined_path(dir@, name@, r@),
{
    std::path::Path::new(dir).join(name).to_string_lossy().into_owned()
}

/// The connection file in the configuration directory `config_dir`.
pub fn config_path(config_dir: &str) -> (r: String)
    ensures
        joined_path(config_dir@, "config.json"@, r@),
{
    proof {
        reveal_strlit("config.json");
    }
    join_file_name(config_dir, "config.json")
}

/// The print-history database in the configuration directory `config_dir`.
pub fn database_path(config_dir: &str) -> (r: String)
    ensures
        joined_path(config_dir@, "print_history.db"@, r@),
{
    proof {
        reveal_strlit("print_history.db");
    }
    join_file_name(config_dir, "print_history.db")
}

/// A path joined from `dir` (without a verbatim prefix) and a plain file
/// name is `dir`, at most one separator and the name, with the name as its
/// last component.
proof fn lemma_joined_lies_in(dir: Seq<char>, name: Seq<char>, path: Seq<char>)
    requires
        !is_verbatim(dir),
        joined_path(dir, name, path),
    ensures
        lies_in(dir, name, path),
{
    if dir.len() > 0 {
        let k = path.len() - name.len() - 1;
        if path == dir + name {
            assert(path[k] == dir.last());
        } else if path == dir + seq!['/'] + name {
            assert(path[k] == '/');
        } else {
            assert(path[k] == '\\');
        }
    }
}

/// The connection file and the print-history database lie directly in the
/// configuration directory they are joined to: each path is that directory,
/// at most one separator and the file's own name, which is its last
/// component.
pub proof fn law_files_share_directory(config_dir: Seq<char>, config: Seq<char>, database: Seq<char>)
    requires
        !is_verbatim(config_dir),
        joined_path(config_dir, "config.json"@, config),
        joined_path(config_dir, "print_history.db"@, database),
    ensures
        lies_in(config_dir, "config.json"@, config),
        lies_in(config_dir, "print_history.db"@, database),
{
    lemma_joined_lies_in(config_dir, "config.json"@, config);
    lemma_joined_lies_in(config_dir, "print_history.db"@, database);
}

// ── Print history ────────────────────────────────────────────────────────────

/// One finished print.
#[derive(Debug)]
pub struct PrintHistoryRecord {
    pub id: Option<i64>,
    pub printer_serial: String,
    pub job_name: String,
    pub started_at: String,
    pub finished_at: String,
    pub filament_type: String,
    pub layer_count: u32,
    pub success: bool,
}

/// One row of the `print_history` table, column by column.
#[derive(Debug)]
pub struct HistoryRow {
    pub id: i64,
    pub printer_serial: String,
    pub job_name: String,
    pub started_at: String,
    pub finished_at: String,
    pub filament_type: String,
    pub layer_count: u32,
    /// 1 for a successful print.
    pub success: i32,
}

/// The values a record is stored with, in column order after `id`.
#[derive(Debug)]
pub struct HistoryParams {
    pub printer_serial: String,
    pub job_name: String,
    pub started_at: String,
    pub finished_at: String,
    pub filament_type: String,
    pub layer_count: u32,
    pub success: i32,
}

/// `params` are the column values that store `record`: its fields as they
/// are, success as 1 or 0.
pub open spec fn stores(record: PrintHistoryRecord, params: HistoryParams) -> bool {
    &&& params.printer_serial@ == record.printer_serial@
    &&& params.job_name@ == record.job_name@
    &&& params.started_at@ == record.started_at@
    &&& params.finished_at@ == record.finished_at@
    &&& params.filament_type@ == record.filament_type@
    &&& params.layer_count == record.layer_count
    &&& params.success == (if record.success { 1i32 } else { 0i32 })
}

/// `row` is the table row that holds the stored values `params`.
pub open spec fn row_holds(params: HistoryParams, row: HistoryRow) -> bool {
    &&& row.printer_serial@ == params.printer_serial@
    &&& row.job_name@ == params.job_name@
    &&& row.started_at@ == params.started_at@
    &&& row.finished_at@ == params.finished_at@
    &&& row.filament_type@ == params.filament_type@
    &&& row.layer_count == params.layer_count
    &&& row.success == params.success
}

/// The column values that store `record`; success is stored as 1 or 0.
pub fn history_params(record: &PrintHistoryRecord) -> (r: HistoryParams)
    ensures
        stores(*record, r),
{
    HistoryParams {
        printer_serial: record.printer_serial.clone(),
        job_name: record.job_name.clone(),
        started_at: record.started_at.clone(),
        finished_at: record.finished_at.clone(),
        filament_type: record.filament_type.clone(),
        layer_count: record.layer_count,
        success: if record.success { 1 } else { 0 },
    }
}

/// The record a row holds: its id, its columns, and success where the stored
/// flag is 1.
pub open spec fn row_record_matches(row: HistoryRow, rec: PrintHistoryRecord) -> bool {
    &&& rec.id == Some(row.id)
    &&& rec.printer_serial@ == row.printer_serial@
    &&& rec.job_name@ == row.job_name@
    &&& rec.started_at@ == row.started_at@
    &&& rec.finished_at@ == row.finished_at@
    &&& rec.filament_type@ == row.filament_type@
    &&& rec.layer_count == row.layer_count
    &&& rec.success == (row.success == 1)
}

/// The records the rows of a history query hold, in the same order.
pub fn get_print_history(rows: Vec<HistoryRow>) -> (r: Vec<PrintHistoryRecord>)
    ensures
        r@.len() == rows@.len(),
        forall|i: int| 0 <= i < rows@.len() ==> row_record_matches(#[trigger] rows@[i], r@[i]),
{
    let n = rows.len();
    let mut r: Vec<PrintHistoryRecord> = Vec::new();
    let mut i: usize = 0;
    while i < n
        invariant
            n == rows@.len(),
            i <= n,
            r@.len() == i,
            forall|j: int| 0 <= j < i ==> row_record_matches(#[trigger] rows@[j], r@[j]),
        decreases n - i,
    {
        let row = &rows[i];
        r.push(PrintHistoryRecord {
            id: Some(row.id),
            printer_serial: row.printer_serial.clone(),
            job_name: row.job_name.clone(),
            started_at: row.started_at.clone(),
            finished_at: row.finished_at.clone(),
            filament_type: row.filament_type.clone(),
            layer_count: row.layer_count,
            success: row.success == 1,
        });
        i = i + 1;
    }
    r
}

// ── Laws ─────────────────────────────────────────────────────────────────────

/// A printer that was added is read back as it was added.
pub proof fn law_read_after_add(c: AppConfigView, id: Seq<char>, p: PrinterConfigView)
    ensures
        after_add_printer(c, id, p).printers.dom().contains(id),
        after_add_printer(c, id, p).printers[id] == p,
{
}

/// A printer that was removed is no longer known, whichever printer becomes
/// active.
pub proof fn law_removed_is_gone(c: AppConfigView, id: Seq<char>, r: AppConfigView)
    requires
        removal_result(c, id, r),
    ensures
        !r.printers.dom().contains(id),
{
}

/// The first printer added becomes the active one; a later one does not
/// change the active printer.
pub proof fn law_first_printer_becomes_active(c: AppConfigView, id: Seq<char>, p: PrinterConfigView)
    ensures
        c.active_printer is None ==> after_add_printer(c, id, p).active_printer == Some(id),
        c.active_printer is Some ==> after_add_printer(c, id, p).active_printer == c.active_printer,
{
}

/// Every change keeps the active printer among the known printers.
pub proof fn law_active_stays_known(c: AppConfigView, id: Seq<char>, p: PrinterConfigView, r: AppConfigView)
    requires
        active_is_known(c),
    ensures
        active_is_known(after_add_printer(c, id, p)),
        active_is_known(after_set_active(c, id)),
        active_is_known(after_update_printer(c, id, p)),
        removal_result(c, id, r) ==> active_is_known(r),
{
}

/// Updating or activating an unknown printer changes nothing.
pub proof fn law_unknown_printer_untouched(c: AppConfigView, id: Seq<char>, p: PrinterConfigView)
    requires
        !c.printers.dom().contains(id),
    ensures
        after_update_printer(c, id, p) == c,
        after_set_active(c, id) == c,
{
}

/// A history record that is stored and read back is the same record, now
/// with the row's id.
pub proof fn law_history_round_trip(record: PrintHistoryRecord, params: HistoryParams, row: HistoryRow, back: PrintHistoryRecord)
    requires
        stores(record, params),
        row_holds(params, row),
        row_record_matches(row, back),
    ensures
        back.id == Some(row.id),
        back.printer_serial@ == record.printer_serial@,
        back.job_name@ == record.job_name@,
        back.started_at@ == record.started_at@,
        back.finished_at@ == record.finished_at@,
        back.filament_type@ == record.filament_type@,
        back.layer_count == record.layer_count,
        back.success == record.success,
{
}

} // verus!
