//! The storage-target check: the service state and the target list of one
//! storage node, compared with the targets the operator expects.
use vstd::prelude::*;
use crate::checks::{group_lines, StorageTargetArgs};
use crate::config::{select_nodes, selection, Config};
use crate::order::{grouped, join, push_joined, texts, Groups};
use crate::shell::{with_timeout, wrap_timeout};
use crate::text::{comma_list, opt_text, eq_ignore_ascii_case, eq_ignore_case, has_prefix, push_text, split_list, starts_with, trim, trim_ws};
use crate::transport::Transport;

verus! {

/// What the target-list pattern captures on each line it matches: the
/// leading target ID and the parenthesised state right after it, if any.
pub uninterp spec fn target_captures(text: Seq<char>) -> Seq<(Option<Seq<char>>, Option<Seq<char>>)>;

pub open spec fn captures_view(c: Seq<(Option<String>, Option<String>)>) -> Seq<(Option<Seq<char>>, Option<Seq<char>>)> {
    c.map_values(|p: (Option<String>, Option<String>)| (opt_text(p.0), opt_text(p.1)))
}

/// Relies on `regex::Regex::captures_iter` with the multi-line pattern
/// `^\s*(\d+)\b.*?(?:\(([^)]+)\))?`: groups 1 and 2 of each match, in order.
#[verifier::external_body]
fn capture_targets(text: &str) -> (r: Vec<(Option<String>, Option<String>)>)
    ensures
        captures_view(r@) == target_captures(text@),
{
    let re = regex::Regex::new(r"(?m)^\s*(\d+)\b.*?(?:\(([^)]+)\))?").unwrap();
    re.captures_iter(text)
        .map(|c| (c.get(1).map(|m| m.as_str().to_string()), c.get(2).map(|m| m.as_str().to_string())))
        .collect()
}

// ---------------------------------------------------------------- rows

/// `(id, state)` of each capture with an ID, `unknown` where no state was
/// captured.
pub open spec fn found_pairs(caps: Seq<(Option<Seq<char>>, Option<Seq<char>>)>) -> Seq<(Seq<char>, Seq<char>)>
    decreases caps.len(),
{
    if caps.len() == 0 {
        Seq::empty()
    } else {
        let rest = found_pairs(caps.drop_last());
        let c = caps.last();
        let id = match c.0 {
            Some(s) => s,
            None => Seq::empty(),
        };
        let state = match c.1 {
            Some(s) => s,
            None => "unknown"@,
        };
        if id.len() == 0 {
            rest
        } else {
            rest.push((id, state))
        }
    }
}

/// The index of the first key equal to `t` from `k` on, or the key count.
pub open spec fn find_from(keys: Seq<Seq<char>>, t: Seq<char>, k: int) -> int
    decreases keys.len() - k,
{
    if k < 0 || k >= keys.len() {
        keys.len() as int
    } else if keys[k] == t {
        k
    } else {
        find_from(keys, t, k + 1)
    }
}

/// The targets asked for: every target found for `all` (in any letter case),
/// else the listed IDs.
pub open spec fn wanted_targets(found: Seq<Seq<char>>, targets: Seq<char>) -> Seq<Seq<char>> {
    if eq_ignore_case(targets, "all"@) {
        found
    } else {
        comma_list(targets)
    }
}

/// Whether a target was found, and its state: the last one reported for it,
/// or `missing`.
pub open spec fn target_status(keys: Seq<Seq<char>>, members: Seq<Seq<Seq<char>>>, t: Seq<char>) -> (bool, Seq<char>) {
    let k = find_from(keys, t, 0);
    if k < keys.len() {
        (true, members[k].last())
    } else {
        (false, "missing"@)
    }
}

/// `(target, present, state)` of each wanted target.
pub open spec fn target_rows_spec(caps: Seq<(Option<Seq<char>>, Option<Seq<char>>)>, targets: Seq<char>) -> Seq<(Seq<char>, bool, Seq<char>)> {
    let g = grouped(found_pairs(caps));
    let want = wanted_targets(g.0, targets);
    Seq::new(want.len(), |i: int| (want[i], target_status(g.0, g.1, want[i]).0, target_status(g.0, g.1, want[i]).1))
}

pub struct TargetRow {
    pub target: String,
    pub present: bool,
    pub state: String,
    pub service_active: bool,
}

pub open spec fn target_row_view(r: TargetRow) -> (Seq<char>, bool, Seq<char>) {
    (r.target@, r.present, r.state@)
}

fn copy_text(t: &str) -> (r: String)
    ensures
        r@ == t@,
{
    let mut s = String::new();
    push_text(&mut s, t);
    s
}

fn find_key(g: &Groups, t: &str) -> (r: usize)
    requires
        g.wf(),
    ensures
        r as int == find_from(g.key_view(), t@, 0),
        r <= g.keys@.len(),
{
    let mut k: usize = 0;
    while k < g.keys.len()
        invariant
            g.wf(),
            k <= g.keys@.len(),
            find_from(g.key_view(), t@, k as int) == find_from(g.key_view(), t@, 0),
        decreases g.keys.len() - k,
    {
        if crate::text::same_text(g.keys[k].as_str(), t) {
            return k;
        }
        k = k + 1;
    }
    k
}

fn found_targets(caps: &Vec<(Option<String>, Option<String>)>) -> (g: Groups)
    ensures
        g.wf(),
        (g.key_view(), g.member_view()) == grouped(found_pairs(captures_view(caps@))),
{
    let mut g = Groups::new();
    let mut i: usize = 0;
    assert(captures_view(caps@.subrange(0, 0)) =~= Seq::empty());
    while i < caps.len()
        invariant
            i <= caps@.len(),
            g.wf(),
            (g.key_view(), g.member_view()) == grouped(found_pairs(captures_view(caps@.subrange(0, i as int)))),
        decreases caps.len() - i,
    {
        let ghost prev = found_pairs(captures_view(caps@.subrange(0, i as int)));
        let ghost cv = captures_view(caps@.subrange(0, i + 1));
        assert(cv.drop_last() =~= captures_view(caps@.subrange(0, i as int)));
        assert(cv.last() == (opt_text(caps@[i as int].0), opt_text(caps@[i as int].1)));
        let c = &caps[i];
        let id = match &c.0 {
            Some(s) => copy_text(s.as_str()),
            None => String::new(),
        };
        let state = match &c.1 {
            Some(s) => copy_text(s.as_str()),
            None => copy_text("unknown"),
        };
        if id.unicode_len() > 0 {
            g.add(id.as_str(), state.as_str());
            assert(found_pairs(cv) == prev.push((id@, state@)));
            assert(prev.push((id@, state@)).drop_last() =~= prev);
        } else {
            assert(found_pairs(cv) == prev);
        }
        i = i + 1;
    }
    assert(caps@.subrange(0, caps@.len() as int) =~= caps@);
    g
}

/// The rows of the check, from what the target-list pattern captured.
pub fn storage_rows(caps: &Vec<(Option<String>, Option<String>)>, targets: &str, service_active: bool) -> (r: Vec<TargetRow>)
    ensures
        r@.len() == target_rows_spec(captures_view(caps@), targets@).len(),
        forall|i: int| 0 <= i < r@.len() ==> target_row_view(#[trigger] r@[i]) == target_rows_spec(captures_view(caps@), targets@)[i]
            && r@[i].service_active == service_active,
{
    let found = found_targets(caps);
    let ghost spec = target_rows_spec(captures_view(caps@), targets@);
    let want: Vec<String> = if eq_ignore_ascii_case(targets, "all") {
        let mut w: Vec<String> = Vec::new();
        let mut k: usize = 0;
        while k < found.keys.len()
            invariant
                k <= found.keys@.len(),
                texts(w@) == found.key_view().subrange(0, k as int),
            decreases found.keys.len() - k,
        {
            let ghost before = w@;
            w.push(found.keys[k].clone());
            assert(w@ == before.push(found.keys@[k as int]));
            assert(texts(w@) =~= texts(before).push(found.keys@[k as int]@));
            assert(texts(w@) =~= found.key_view().subrange(0, k + 1));
            k = k + 1;
        }
        assert(found.key_view().subrange(0, found.keys@.len() as int) =~= found.key_view());
        w
    } else {
        split_list(targets)
    };
    assert(texts(want@) == wanted_targets(found.key_view(), targets@));
    let mut r: Vec<TargetRow> = Vec::new();
    let mut i: usize = 0;
    while i < want.len()
        invariant
            found.wf(),
            (found.key_view(), found.member_view()) == grouped(found_pairs(captures_view(caps@))),
            texts(want@) == wanted_targets(found.key_view(), targets@),
            spec == target_rows_spec(captures_view(caps@), targets@),
            i <= want@.len(),
            r@.len() == i,
            forall|j: int| 0 <= j < i ==> target_row_view(#[trigger] r@[j]) == spec[j] && r@[j].service_active == service_active,
        decreases want.len() - i,
    {
        let t = want[i].as_str();
        let k = find_key(&found, t);
        assert(texts(want@)[i as int] == want@[i as int]@);
        let row = if k < found.keys.len() {
            let m = &found.members[k];
            assert(m@.len() > 0);
            TargetRow { target: copy_text(t), present: true, state: m[m.len() - 1].clone(), service_active }
        } else {
            TargetRow { target: copy_text(t), present: false, state: copy_text("missing"), service_active }
        };
        r.push(row);
        i = i + 1;
    }
    r
}

// ---------------------------------------------------------------- warnings

/// The wanted targets that were not found, in row order.
pub open spec fn missing_targets(rows: Seq<TargetRow>) -> Seq<Seq<char>>
    decreases rows.len(),
{
    if rows.len() == 0 {
        Seq::empty()
    } else {
        let rest = missing_targets(rows.drop_last());
        if rows.last().present {
            rest
        } else {
            rest.push(rows.last().target@)
        }
    }
}

/// `(state, target)` of each target that was found.
pub open spec fn state_pairs(rows: Seq<TargetRow>) -> Seq<(Seq<char>, Seq<char>)>
    decreases rows.len(),
{
    if rows.len() == 0 {
        Seq::empty()
    } else {
        let rest = state_pairs(rows.drop_last());
        if rows.last().present {
            rest.push((rows.last().state@, rows.last().target@))
        } else {
            rest
        }
    }
}

pub open spec fn missing_warning_spec(rows: Seq<TargetRow>) -> Option<Seq<char>> {
    if missing_targets(rows).len() > 0 {
        Some("WARNING: missing targets: "@ + join(missing_targets(rows), ", "@))
    } else {
        None
    }
}

/// Where found targets disagree on their state: each state (in ascending
/// order) with its targets.
pub open spec fn mismatch_warnings_spec(rows: Seq<TargetRow>) -> Seq<Seq<char>> {
    let g = grouped(state_pairs(rows));
    if g.0.len() > 1 {
        seq!["WARNING: target state mismatch:"@] + group_lines(g.0, g.1)
    } else {
        Seq::empty()
    }
}

pub open spec fn service_warning_spec(active: bool, node: Seq<char>) -> Option<Seq<char>> {
    if active {
        None
    } else {
        Some("WARNING: beegfs-storage service is inactive on "@ + node)
    }
}

pub fn missing_warning(rows: &Vec<TargetRow>) -> (r: Option<String>)
    ensures
        opt_text(r) == missing_warning_spec(rows@),
{
    let mut missing: Vec<String> = Vec::new();
    let mut i: usize = 0;
    while i < rows.len()
        invariant
            i <= rows@.len(),
            texts(missing@) == missing_targets(rows@.subrange(0, i as int)),
        decreases rows.len() - i,
    {
        let ghost sub = rows@.subrange(0, i + 1);
        assert(sub.drop_last() =~= rows@.subrange(0, i as int));
        if !rows[i].present {
            missing.push(rows[i].target.clone());
            assert(texts(missing@) =~= missing_targets(sub));
        }
        i = i + 1;
    }
    assert(rows@.subrange(0, rows@.len() as int) =~= rows@);
    if missing.len() > 0 {
        let mut s = String::new();
        push_text(&mut s, "WARNING: missing targets: ");
        push_joined(&mut s, &missing, ", ");
        Some(s)
    } else {
        None
    }
}

fn state_line(key: &String, members: &Vec<String>) -> (r: String)
    ensures
        r@ == "  "@ + key@ + ": "@ + join(texts(members@), ", "@),
{
    let mut s = String::new();
    push_text(&mut s, "  ");
    push_text(&mut s, key.as_str());
    push_text(&mut s, ": ");
    push_joined(&mut s, members, ", ");
    s
}

pub fn mismatch_warnings(rows: &Vec<TargetRow>) -> (r: Vec<String>)
    ensures
        texts(r@) == mismatch_warnings_spec(rows@),
{
    let mut groups = Groups::new();
    let mut i: usize = 0;
    while i < rows.len()
        invariant
            i <= rows@.len(),
            groups.wf(),
            (groups.key_view(), groups.member_view()) == grouped(state_pairs(rows@.subrange(0, i as int))),
        decreases rows.len() - i,
    {
        let ghost sub = rows@.subrange(0, i + 1);
        let ghost prev = state_pairs(rows@.subrange(0, i as int));
        assert(sub.drop_last() =~= rows@.subrange(0, i as int));
        assert(sub.last() == rows@[i as int]);
        if rows[i].present {
            groups.add(rows[i].state.as_str(), rows[i].target.as_str());
            let ghost x = (rows@[i as int].state@, rows@[i as int].target@);
            assert(state_pairs(sub) == prev.push(x));
            assert(prev.push(x).drop_last() =~= prev);
        } else {
            assert(state_pairs(sub) == prev);
        }
        i = i + 1;
    }
    assert(rows@.subrange(0, rows@.len() as int) =~= rows@);
    let mut r: Vec<String> = Vec::new();
    if groups.len() > 1 {
        r.push(copy_text("WARNING: target state mismatch:"));
        let mut k: usize = 0;
        while k < groups.len()
            invariant
                groups.wf(),
                r@.len() == k + 1,
                k <= groups.keys@.len(),
                texts(r@) == seq!["WARNING: target state mismatch:"@] + group_lines(groups.key_view(), groups.member_view()).subrange(0, k as int),
            decreases groups.keys@.len() - k,
        {
            let line = state_line(&groups.keys[k], &groups.members[k]);
            let ghost before = texts(r@);
            r.push(line);
            proof {
                let gl = group_lines(groups.key_view(), groups.member_view());
                assert(gl[k as int] == line@);
                assert(gl.subrange(0, k + 1) =~= gl.subrange(0, k as int).push(line@));
                assert(texts(r@) =~= before.push(line@));
            }
            k = k + 1;
        }
        proof {
            let gl = group_lines(groups.key_view(), groups.member_view());
            assert(gl.subrange(0, gl.len() as int) =~= gl);
        }
    } else {
        assert(texts(r@) =~= mismatch_warnings_spec(rows@));
    }
    r
}

pub fn service_warning(active: bool, node: &str) -> (r: Option<String>)
    ensures
        opt_text(r) == service_warning_spec(active, node@),
{
    if active {
        None
    } else {
        let mut s = copy_text("WARNING: beegfs-storage service is inactive on ");
        push_text(&mut s, node);
        Some(s)
    }
}

// ---------------------------------------------------------------- the check

pub struct StorageReport {
    pub node: String,
    pub service_active: bool,
    pub rows: Vec<TargetRow>,
    pub missing_warning: Option<String>,
    pub mismatch_warnings: Vec<String>,
    pub service_warning: Option<String>,
}

pub enum StorageError {
    /// The selector resolved to this many nodes instead of one.
    NotOneNode(usize),
    /// A remote command could not run.
    Exec(String),
}

impl StorageError {
    pub fn message(&self) -> (r: String)
        ensures
            self is NotOneNode ==> r@ == "selector must resolve to exactly one node (got "@ + crate::text::decimal(self->NotOneNode_0 as nat) + ")"@,
            self is Exec ==> r@ == self->Exec_0@,
    {
        match self {
            StorageError::NotOneNode(n) => {
                let mut s = copy_text("selector must resolve to exactly one node (got ");
                crate::text::push_decimal(&mut s, *n as u64);
                push_text(&mut s, ")");
                s
            },
            StorageError::Exec(e) => e.clone(),
        }
    }
}

/// The service is active where its probe's trimmed output begins with `active`.
pub open spec fn service_active_from(out: Seq<char>) -> bool {
    has_prefix(trim_ws(out), "active"@)
}

/// What a report holds given the node, the service probe's output and the
/// target listing.
pub open spec fn report_from(r: StorageReport, node: Seq<char>, svc_out: Seq<char>, listing: Seq<char>, targets: Seq<char>) -> bool {
    &&& r.node@ == node
    &&& r.service_active == service_active_from(svc_out)
    &&& r.rows@.len() == target_rows_spec(target_captures(listing), targets).len()
    &&& forall|i: int| 0 <= i < r.rows@.len() ==> target_row_view(#[trigger] r.rows@[i]) == target_rows_spec(target_captures(listing), targets)[i]
        && r.rows@[i].service_active == r.service_active
    &&& opt_text(r.missing_warning) == missing_warning_spec(r.rows@)
    &&& texts(r.mismatch_warnings@) == mismatch_warnings_spec(r.rows@)
    &&& opt_text(r.service_warning) == service_warning_spec(r.service_active, node)
}

/// A selector that does not resolve to exactly one node is refused with the
/// count; else a remote failure is an `Exec` error, and a report is what
/// `report_from` says of some service output and some target listing.
pub open spec fn storage_result(cfg: Config, args: StorageTargetArgs, r: Result<StorageReport, StorageError>) -> bool {
    let nodes = selection(cfg.nodes@, args.selector@);
    &&& nodes.len() != 1 ==> r == Err::<StorageReport, StorageError>(StorageError::NotOneNode(nodes.len() as usize))
    &&& nodes.len() == 1 ==> match r {
        Ok(rep) => exists|svc: Seq<char>, listing: Seq<char>| report_from(rep, nodes[0].name@, svc, listing, args.targets@),
        Err(e) => e is Exec,
    }
}

/// The probe of the storage service: prints `active` or `inactive`.
pub open spec fn service_query() -> Seq<char> {
    "systemctl is-active beegfs-storage >/dev/null 2>&1 && echo active || echo inactive"@
}

/// The target listing, with states where the tool gives them.
pub open spec fn listing_query() -> Seq<char> {
    "beegfs-ctl --listtargets --state --storage 2>/dev/null || beegfs-ctl --listtargets --storage 2>/dev/null"@
}

/// The node a storage check runs on, and its two commands in the order
/// they run.
pub struct StoragePlan {
    pub node: String,
    pub host: String,
    pub service_cmd: String,
    pub list_cmd: String,
}

/// Refuses a selector that does not resolve to exactly one node; else both
/// probes go to that node's host under the timeout guard.
pub fn storage_plan(cfg: &Config, args: &StorageTargetArgs) -> (r: Result<StoragePlan, StorageError>)
    ensures
        selection(cfg.nodes@, args.selector@).len() != 1 ==> r == Err::<StoragePlan, StorageError>(
            StorageError::NotOneNode(selection(cfg.nodes@, args.selector@).len() as usize),
        ),
        selection(cfg.nodes@, args.selector@).len() == 1 ==> (r matches Ok(p) && {
            let n = selection(cfg.nodes@, args.selector@)[0];
            &&& p.node@ == n.name@
            &&& p.host@ == n.host@
            &&& p.service_cmd@ == with_timeout(service_query(), args.timeout as nat)
            &&& p.list_cmd@ == with_timeout(listing_query(), args.timeout as nat)
        }),
{
    let nodes = select_nodes(cfg, args.selector.as_str());
    if nodes.len() != 1 {
        return Err(StorageError::NotOneNode(nodes.len()));
    }
    let node = nodes[0];
    let service_cmd = wrap_timeout("systemctl is-active beegfs-storage >/dev/null 2>&1 && echo active || echo inactive", args.timeout);
    let list_cmd = wrap_timeout(
        "beegfs-ctl --listtargets --state --storage 2>/dev/null || beegfs-ctl --listtargets --storage 2>/dev/null",
        args.timeout,
    );
    Ok(StoragePlan { node: node.name.clone(), host: node.host.clone(), service_cmd, list_cmd })
}

/// The report of node `node`, from the service probe's output and the
/// target listing.
pub fn storage_report(node: &str, service_out: &str, listing: &str, targets: &str) -> (r: StorageReport)
    ensures
        report_from(r, node@, service_out@, listing@, targets@),
{
    let service_active = starts_with(trim(service_out), "active");
    let caps = capture_targets(listing);
    let rows = storage_rows(&caps, targets, service_active);
    let missing = missing_warning(&rows);
    let mismatch = mismatch_warnings(&rows);
    let svc_warn = service_warning(service_active, node);
    let mut name = String::new();
    push_text(&mut name, node);
    StorageReport {
        node: name,
        service_active,
        rows,
        missing_warning: missing,
        mismatch_warnings: mismatch,
        service_warning: svc_warn,
    }
}

/// Checks the storage service and targets of the one node the selector
/// names: runs `storage_plan`'s service probe, then (where that ran) its
/// listing, and reports with `storage_report`.
pub fn check_storage_target<T: Transport>(tr: &T, cfg: &Config, args: &StorageTargetArgs) -> (r: Result<StorageReport, StorageError>)
    ensures
        storage_result(*cfg, *args, r),
{
    let plan = storage_plan(cfg, args)?;
    let svc = match tr.exec(plan.host.as_str(), plan.service_cmd.as_str()) {
        Ok(o) => o,
        Err(e) => return Err(StorageError::Exec(e)),
    };
    let out = match tr.exec(plan.host.as_str(), plan.list_cmd.as_str()) {
        Ok(o) => o,
        Err(e) => return Err(StorageError::Exec(e)),
    };
    let rep = storage_report(plan.node.as_str(), svc.stdout.as_str(), out.stdout.as_str(), args.targets.as_str());
    Ok(rep)
}

} // verus!
