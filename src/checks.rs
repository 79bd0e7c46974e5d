//! The one-shot checks: a query per node, its answer classified into a row,
//! and warnings about nodes that lack the component or disagree on its version.
use vstd::prelude::*;
use crate::config::{select_nodes, selection, Config, Node};
use crate::order::{grouped, join, push_joined, texts, Groups};
use crate::text::{decimal, eq_ignore_ascii_case, eq_ignore_case, push_decimal, push_text, same_text, trim, trim_ws};
use crate::shell::with_timeout;
use crate::storage::{check_storage_target, listing_query, service_query, storage_plan, storage_result, StorageError, StorageReport};
use crate::transport::{ExecOutput, Transport};

verus! {

pub struct ClientMountArgs {
    /// Mount point under test.
    pub mount: String,
    /// Node name, host or label, or `all`.
    pub selector: String,
    /// Seconds allowed to each remote operation.
    pub timeout: u64,
}

pub struct StorageTargetArgs {
    /// Must resolve to exactly one node.
    pub selector: String,
    /// Comma-separated target IDs, or `all`.
    pub targets: String,
    pub timeout: u64,
}

pub struct NvidiaArgs {
    pub selector: String,
}

pub struct CudaArgs {
    pub selector: String,
}

pub struct NvidiaFsArgs {
    pub selector: String,
}

pub struct OfedArgs {
    pub selector: String,
}

pub enum CheckCmd {
    NvidiaDriver(NvidiaArgs),
    Cuda(CudaArgs),
    NvidiaFs(NvidiaFsArgs),
    Ofed(OfedArgs),
    ClientMount(ClientMountArgs),
    StorageTarget(StorageTargetArgs),
}

// ---------------------------------------------------------------- version checks

/// One node's answer to a version query.
pub struct VersionRow {
    pub node: String,
    pub host: String,
    pub version: String,
    pub ok: bool,
    /// What the query printed on standard error, or why it could not run.
    pub stderr: String,
}

/// Version, presence and diagnostics read from a query's result: the trimmed
/// output, `unknown` where it is empty; present unless it is `unknown`;
/// `error` and the failure where the query could not run.
pub open spec fn version_fields(out: Result<ExecOutput, String>) -> (Seq<char>, bool, Seq<char>) {
    match out {
        Ok(o) => {
            let t = trim_ws(o.stdout@);
            let ver = if t.len() == 0 { "unknown"@ } else { t };
            (ver, ver != "unknown"@, o.stderr@)
        },
        Err(e) => ("error"@, false, e@),
    }
}

pub open spec fn row_fields(r: VersionRow) -> (Seq<char>, bool, Seq<char>) {
    (r.version@, r.ok, r.stderr@)
}

pub fn version_of(out: &Result<ExecOutput, String>) -> (r: (String, bool, String))
    ensures
        (r.0@, r.1, r.2@) == version_fields(*out),
{
    match out {
        Ok(o) => {
            let t = trim(o.stdout.as_str());
            let mut ver = String::new();
            if t.unicode_len() == 0 {
                push_text(&mut ver, "unknown");
            } else {
                push_text(&mut ver, t);
            }
            let ok = !same_text(ver.as_str(), "unknown");
            (ver, ok, o.stderr.clone())
        },
        Err(e) => {
            let mut ver = String::new();
            push_text(&mut ver, "error");
            (ver, false, e.clone())
        },
    }
}

/// What a version check sends: to each selected node's host, in selection
/// order, the check's query.
pub fn version_plan(nodes: &Vec<&Node>, query: &str) -> (r: Vec<(String, String)>)
    ensures
        r@.len() == nodes@.len(),
        forall|i: int| 0 <= i < r@.len() ==> (#[trigger] r@[i]).0@ == nodes@[i].host@ && r@[i].1@ == query@,
{
    let mut r: Vec<(String, String)> = Vec::new();
    let mut i: usize = 0;
    while i < nodes.len()
        invariant
            i <= nodes@.len(),
            r@.len() == i,
            forall|j: int| 0 <= j < i ==> (#[trigger] r@[j]).0@ == nodes@[j].host@ && r@[j].1@ == query@,
        decreases nodes.len() - i,
    {
        let mut q = String::new();
        push_text(&mut q, query);
        r.push((nodes[i].host.clone(), q));
        i = i + 1;
    }
    r
}

pub open spec fn node_values(nodes: Seq<&Node>) -> Seq<Node> {
    nodes.map_values(|n: &Node| *n)
}

/// Node `i`'s row is its name and host with what `outs[i]` says.
pub open spec fn rows_from(rows: Seq<VersionRow>, nodes: Seq<Node>, outs: Seq<Result<ExecOutput, String>>) -> bool {
    &&& rows.len() == nodes.len()
    &&& outs.len() == nodes.len()
    &&& forall|i: int| 0 <= i < rows.len() ==> {
        &&& #[trigger] rows[i].node@ == nodes[i].name@
        &&& rows[i].host@ == nodes[i].host@
        &&& row_fields(rows[i]) == version_fields(outs[i])
    }
}

/// The rows of a version check, from each node's answer to the query.
pub fn version_rows(nodes: &Vec<&Node>, outs: &Vec<Result<ExecOutput, String>>) -> (r: Vec<VersionRow>)
    requires
        outs@.len() == nodes@.len(),
    ensures
        rows_from(r@, node_values(nodes@), outs@),
{
    let ghost ns = node_values(nodes@);
    let mut rows: Vec<VersionRow> = Vec::new();
    let mut i: usize = 0;
    while i < nodes.len()
        invariant
            i <= nodes@.len(),
            outs@.len() == nodes@.len(),
            ns == node_values(nodes@),
            rows@.len() == i,
            forall|j: int| 0 <= j < i ==> {
                &&& #[trigger] rows@[j].node@ == ns[j].name@
                &&& rows@[j].host@ == ns[j].host@
                &&& row_fields(rows@[j]) == version_fields(outs@[j])
            },
        decreases nodes.len() - i,
    {
        let n = nodes[i];
        let (version, ok, stderr) = version_of(&outs[i]);
        rows.push(VersionRow { node: n.name.clone(), host: n.host.clone(), version, ok, stderr });
        i = i + 1;
    }
    rows
}

/// Runs the plan of `version_plan` through the transport, one call per
/// node in order, and classifies each answer with `version_rows`.
pub fn collect_versions<T: Transport>(tr: &T, nodes: &Vec<&Node>, query: &str) -> (r: Vec<VersionRow>)
    ensures
        exists|outs: Seq<Result<ExecOutput, String>>| #[trigger] rows_from(r@, node_values(nodes@), outs),
{
    let plan = version_plan(nodes, query);
    let mut outs: Vec<Result<ExecOutput, String>> = Vec::new();
    let mut i: usize = 0;
    while i < plan.len()
        invariant
            i <= plan@.len(),
            outs@.len() == i,
        decreases plan.len() - i,
    {
        let out = tr.exec(plan[i].0.as_str(), plan[i].1.as_str());
        outs.push(out);
        i = i + 1;
    }
    let r = version_rows(nodes, &outs);
    assert(rows_from(r@, node_values(nodes@), outs@));
    r
}

/// Names of the rows whose component is missing, in row order.
pub open spec fn missing_names(rows: Seq<VersionRow>) -> Seq<Seq<char>>
    decreases rows.len(),
{
    if rows.len() == 0 {
        Seq::empty()
    } else {
        let rest = missing_names(rows.drop_last());
        if rows.last().ok {
            rest
        } else {
            rest.push(rows.last().node@)
        }
    }
}

/// A version that takes no part in the comparison: empty, or one of
/// `ignore` up to ASCII case.
pub open spec fn ignored(ver: Seq<char>, ignore: Seq<Seq<char>>) -> bool {
    ver.len() == 0 || exists|k: int| 0 <= k < ignore.len() && eq_ignore_case(#[trigger] ignore[k], ver)
}

/// `(version, node)` of each present row whose version is compared.
pub open spec fn version_pairs(rows: Seq<VersionRow>, ignore: Seq<Seq<char>>) -> Seq<(Seq<char>, Seq<char>)>
    decreases rows.len(),
{
    if rows.len() == 0 {
        Seq::empty()
    } else {
        let rest = version_pairs(rows.drop_last(), ignore);
        let r = rows.last();
        if r.ok && !ignored(r.version@, ignore) {
            rest.push((r.version@, r.node@))
        } else {
            rest
        }
    }
}

pub open spec fn group_lines(keys: Seq<Seq<char>>, members: Seq<Seq<Seq<char>>>) -> Seq<Seq<char>> {
    Seq::new(keys.len(), |i: int| "  "@ + keys[i] + ": "@ + join(members[i], ", "@))
}

/// The warnings of a version check: the nodes where the component is missing,
/// and, where present nodes report more than one compared version, each
/// version (in ascending order) with its nodes.
pub open spec fn version_warnings(label: Seq<char>, rows: Seq<VersionRow>, ignore: Seq<Seq<char>>) -> Seq<Seq<char>> {
    let missing = missing_names(rows);
    let first = if missing.len() > 0 {
        seq![
            "WARNING: "@ + label + " missing on "@ + decimal(missing.len()) + " node(s): "@ + join(
                missing,
                ", "@,
            ),
        ]
    } else {
        Seq::empty()
    };
    let g = grouped(version_pairs(rows, ignore));
    if g.0.len() > 1 {
        first + seq!["WARNING: "@ + label + " version mismatch across nodes:"@] + group_lines(g.0, g.1)
    } else {
        first
    }
}

fn is_ignored(ver: &str, ignore: &[&str]) -> (r: bool)
    ensures
        r == ignored(ver@, ignore@.map_values(|s: &str| s@)),
{
    let ghost ig = ignore@.map_values(|s: &str| s@);
    if ver.unicode_len() == 0 {
        return true;
    }
    let mut k: usize = 0;
    while k < ignore.len()
        invariant
            k <= ignore@.len(),
            ig == ignore@.map_values(|s: &str| s@),
            ver@.len() > 0,
            forall|j: int| 0 <= j < k ==> !eq_ignore_case(#[trigger] ig[j], ver@),
        decreases ignore.len() - k,
    {
        if eq_ignore_ascii_case(ignore[k], ver) {
            assert(eq_ignore_case(ig[k as int], ver@));
            return true;
        }
        k = k + 1;
    }
    false
}

fn group_line(key: &String, members: &Vec<String>) -> (r: String)
    ensures
        r@ == "  "@ + key@ + ": "@ + join(texts(members@), ", "@),
{
    let mut s = String::new();
    push_text(&mut s, "  ");
    push_text(&mut s, key.as_str());
    push_text(&mut s, ": ");
    push_joined(&mut s, members, ", ");
    s
}

pub fn warn_on_issues(label: &str, rows: &Vec<VersionRow>, ignore: &[&str]) -> (r: Vec<String>)
    ensures
        texts(r@) == version_warnings(label@, rows@, ignore@.map_values(|s: &str| s@)),
{
    let ghost ig = ignore@.map_values(|s: &str| s@);
    let mut missing: Vec<String> = Vec::new();
    let mut groups = Groups::new();
    let mut i: usize = 0;
    while i < rows.len()
        invariant
            i <= rows@.len(),
            ig == ignore@.map_values(|s: &str| s@),
            groups.wf(),
            texts(missing@) == missing_names(rows@.subrange(0, i as int)),
            (groups.key_view(), groups.member_view()) == grouped(version_pairs(rows@.subrange(0, i as int), ig)),
        decreases rows.len() - i,
    {
        let row = &rows[i];
        let ghost sub = rows@.subrange(0, i + 1);
        assert(sub.drop_last() =~= rows@.subrange(0, i as int));
        if !row.ok {
            missing.push(row.node.clone());
            assert(texts(missing@) =~= missing_names(sub));
        }
        let ghost prev_pairs = version_pairs(rows@.subrange(0, i as int), ig);
        assert(sub.last() == rows@[i as int]);
        if row.ok && !is_ignored(row.version.as_str(), ignore) {
            groups.add(row.version.as_str(), row.node.as_str());
            let ghost x = (row.version@, row.node@);
            assert(version_pairs(sub, ig) == prev_pairs.push(x));
            assert(prev_pairs.push(x).drop_last() =~= prev_pairs);
        } else {
            assert(version_pairs(sub, ig) == prev_pairs);
        }
        i = i + 1;
    }
    assert(rows@.subrange(0, rows@.len() as int) =~= rows@);
    let mut r: Vec<String> = Vec::new();
    if missing.len() > 0 {
        let mut s = String::new();
        push_text(&mut s, "WARNING: ");
        push_text(&mut s, label);
        push_text(&mut s, " missing on ");
        push_decimal(&mut s, missing.len() as u64);
        push_text(&mut s, " node(s): ");
        push_joined(&mut s, &missing, ", ");
        r.push(s);
    }
    let ghost first = texts(r@);
    assert(first =~= version_warnings(label@, rows@, ig).subrange(0, first.len() as int)) by {
        assert(texts(missing@).len() == missing@.len());
    }
    if groups.len() > 1 {
        let mut h = String::new();
        push_text(&mut h, "WARNING: ");
        push_text(&mut h, label);
        push_text(&mut h, " version mismatch across nodes:");
        r.push(h);
        let base = r.len();
        let mut k: usize = 0;
        while k < groups.len()
            invariant
                groups.wf(),
                base == first.len() + 1,
                r@.len() == base + k,
                k <= groups.keys@.len(),
                texts(r@) == first + seq!["WARNING: "@ + label@ + " version mismatch across nodes:"@]
                    + group_lines(groups.key_view(), groups.member_view()).subrange(0, k as int),
            decreases groups.keys@.len() - k,
        {
            let line = group_line(&groups.keys[k], &groups.members[k]);
            let ghost before = texts(r@);
            r.push(line);
            proof {
                let gl = group_lines(groups.key_view(), groups.member_view());
                assert(gl[k as int] == line@);
                assert(gl.subrange(0, k + 1) =~= gl.subrange(0, k as int).push(line@));
                assert(texts(r@) =~= before.push(line@));
            }
            k = k + 1;
        }
        proof {
            let gl = group_lines(groups.key_view(), groups.member_view());
            assert(gl.subrange(0, gl.len() as int) =~= gl);
            assert(texts(r@) =~= version_warnings(label@, rows@, ig));
        }
    } else {
        assert(texts(r@) =~= version_warnings(label@, rows@, ig));
    }
    r
}

/// The four version checks.
pub enum CheckKind {
    NvidiaDriver,
    Cuda,
    NvidiaFs,
    Ofed,
}

/// The query each version check sends to every selected node.
pub open spec fn version_query(k: CheckKind) -> Seq<char> {
    match k {
        CheckKind::NvidiaDriver => "nvidia-smi --query-gpu=driver_version --format=csv,noheader 2>/dev/null | head -n1 || modinfo -F version nvidia 2>/dev/null | head -n1 || echo unknown"@,
        CheckKind::Cuda => "nvidia-smi --query-gpu=cuda_version --format=csv,noheader 2>/dev/null | head -n1 || nvcc --version 2>/dev/null | awk '/release/ {print $NF}' | sed 's/^V//' | head -n1 || awk '{print $3}' /usr/local/cuda/version.txt 2>/dev/null | head -n1 || echo unknown"@,
        CheckKind::NvidiaFs => "modinfo -F version nvidia_fs 2>/dev/null | head -n1 || modinfo -F version nvidia-fs 2>/dev/null | head -n1 || lsmod | awk '$1 ~ /^(nvidia_fs|nvidia-fs)$/ {print \"loaded\"}' | head -n1 || echo unknown"@,
        CheckKind::Ofed => "ofed_info -s 2>/dev/null | head -n1 || modinfo -F version mlx5_core 2>/dev/null | head -n1 || modinfo -F version mlx5_ib 2>/dev/null | head -n1 || ibv_devinfo --version 2>/dev/null | head -n1 || echo unknown"@,
    }
}

pub fn query_text(k: &CheckKind) -> (r: &'static str)
    ensures
        r@ == version_query(*k),
{
    match k {
        CheckKind::NvidiaDriver => "nvidia-smi --query-gpu=driver_version --format=csv,noheader 2>/dev/null | head -n1 || modinfo -F version nvidia 2>/dev/null | head -n1 || echo unknown",
        CheckKind::Cuda => "nvidia-smi --query-gpu=cuda_version --format=csv,noheader 2>/dev/null | head -n1 || nvcc --version 2>/dev/null | awk '/release/ {print $NF}' | sed 's/^V//' | head -n1 || awk '{print $3}' /usr/local/cuda/version.txt 2>/dev/null | head -n1 || echo unknown",
        CheckKind::NvidiaFs => "modinfo -F version nvidia_fs 2>/dev/null | head -n1 || modinfo -F version nvidia-fs 2>/dev/null | head -n1 || lsmod | awk '$1 ~ /^(nvidia_fs|nvidia-fs)$/ {print \"loaded\"}' | head -n1 || echo unknown",
        CheckKind::Ofed => "ofed_info -s 2>/dev/null | head -n1 || modinfo -F version mlx5_core 2>/dev/null | head -n1 || modinfo -F version mlx5_ib 2>/dev/null | head -n1 || ibv_devinfo --version 2>/dev/null | head -n1 || echo unknown",
    }
}

/// The version check a command runs, if it is one.
pub open spec fn kind_of(cmd: CheckCmd) -> Option<CheckKind> {
    match cmd {
        CheckCmd::NvidiaDriver(_) => Some(CheckKind::NvidiaDriver),
        CheckCmd::Cuda(_) => Some(CheckKind::Cuda),
        CheckCmd::NvidiaFs(_) => Some(CheckKind::NvidiaFs),
        CheckCmd::Ofed(_) => Some(CheckKind::Ofed),
        _ => None,
    }
}

pub open spec fn selector_of(cmd: CheckCmd) -> Seq<char> {
    match cmd {
        CheckCmd::NvidiaDriver(a) => a.selector@,
        CheckCmd::Cuda(a) => a.selector@,
        CheckCmd::NvidiaFs(a) => a.selector@,
        CheckCmd::Ofed(a) => a.selector@,
        CheckCmd::ClientMount(a) => a.selector@,
        CheckCmd::StorageTarget(a) => a.selector@,
    }
}

/// Rows and warnings of a version check.
pub struct VersionReport {
    pub rows: Vec<VersionRow>,
    pub warnings: Vec<String>,
}

/// The rows are `version_rows` of the nodes' answers (the answers to
/// `version_plan`), and the warnings are those of the rows.
pub open spec fn report_matches(r: VersionReport, nodes: Seq<Node>, label: Seq<char>, ignore: Seq<Seq<char>>) -> bool {
    &&& exists|outs: Seq<Result<ExecOutput, String>>| #[trigger] rows_from(r.rows@, nodes, outs)
    &&& texts(r.warnings@) == version_warnings(label, r.rows@, ignore)
}

fn version_check<T: Transport>(tr: &T, cfg: &Config, selector: &str, query: &str, label: &str, ignore: &[&str]) -> (r: VersionReport)
    ensures
        report_matches(r, selection(cfg.nodes@, selector@), label@, ignore@.map_values(|s: &str| s@)),
{
    let nodes = select_nodes(cfg, selector);
    let rows = collect_versions(tr, &nodes, query);
    assert(node_values(nodes@) =~= selection(cfg.nodes@, selector@));
    let warnings = warn_on_issues(label, &rows, ignore);
    VersionReport { rows, warnings }
}

pub open spec fn unknown_only() -> Seq<Seq<char>> {
    seq!["unknown"@]
}

pub open spec fn unknown_or_loaded() -> Seq<Seq<char>> {
    seq!["unknown"@, "loaded"@]
}

fn ignore_unknown() -> (r: Vec<&'static str>)
    ensures
        r@.map_values(|s: &str| s@) == unknown_only(),
{
    let mut r: Vec<&'static str> = Vec::new();
    r.push("unknown");
    assert(r@.map_values(|s: &str| s@) =~= unknown_only());
    r
}

pub fn check_nvidia_driver<T: Transport>(tr: &T, cfg: &Config, args: &NvidiaArgs) -> (r: VersionReport)
    ensures
        report_matches(r, selection(cfg.nodes@, args.selector@), "NVIDIA driver"@, unknown_only()),
{
    let ig = ignore_unknown();
    version_check(
        tr,
        cfg,
        args.selector.as_str(),
        query_text(&CheckKind::NvidiaDriver),
        "NVIDIA driver",
        ig.as_slice(),
    )
}

pub fn check_cuda<T: Transport>(tr: &T, cfg: &Config, args: &CudaArgs) -> (r: VersionReport)
    ensures
        report_matches(r, selection(cfg.nodes@, args.selector@), "CUDA"@, unknown_only()),
{
    let ig = ignore_unknown();
    version_check(
        tr,
        cfg,
        args.selector.as_str(),
        query_text(&CheckKind::Cuda),
        "CUDA",
        ig.as_slice(),
    )
}

/// A loaded module without a version reads `loaded`, which is present but
/// takes no part in the version comparison.
pub fn check_nvidia_fs<T: Transport>(tr: &T, cfg: &Config, args: &NvidiaFsArgs) -> (r: VersionReport)
    ensures
        report_matches(r, selection(cfg.nodes@, args.selector@), "nvidia-fs"@, unknown_or_loaded()),
{
    let mut ig: Vec<&'static str> = Vec::new();
    ig.push("unknown");
    ig.push("loaded");
    assert(ig@.map_values(|s: &str| s@) =~= unknown_or_loaded());
    version_check(
        tr,
        cfg,
        args.selector.as_str(),
        query_text(&CheckKind::NvidiaFs),
        "nvidia-fs",
        ig.as_slice(),
    )
}

pub fn check_ofed<T: Transport>(tr: &T, cfg: &Config, args: &OfedArgs) -> (r: VersionReport)
    ensures
        report_matches(r, selection(cfg.nodes@, args.selector@), "OFED/RDMA"@, unknown_only()),
{
    let ig = ignore_unknown();
    version_check(
        tr,
        cfg,
        args.selector.as_str(),
        query_text(&CheckKind::Ofed),
        "OFED/RDMA",
        ig.as_slice(),
    )
}

/// What a check produced. The client mount check runs as a live view of its
/// own, driven by `client::NodeWorker` and `client::Aggregator`.
pub enum CheckReport {
    Versions(VersionReport),
    Storage(StorageReport),
    LiveMount,
}

pub fn run_check_cmd<T: Transport>(tr: &T, cfg: &Config, cmd: &CheckCmd) -> (r: Result<CheckReport, StorageError>)
    ensures
        match cmd {
            CheckCmd::NvidiaDriver(a) => r matches Ok(CheckReport::Versions(rep))
                && report_matches(rep, selection(cfg.nodes@, a.selector@), "NVIDIA driver"@, unknown_only()),
            CheckCmd::Cuda(a) => r matches Ok(CheckReport::Versions(rep))
                && report_matches(rep, selection(cfg.nodes@, a.selector@), "CUDA"@, unknown_only()),
            CheckCmd::NvidiaFs(a) => r matches Ok(CheckReport::Versions(rep))
                && report_matches(rep, selection(cfg.nodes@, a.selector@), "nvidia-fs"@, unknown_or_loaded()),
            CheckCmd::Ofed(a) => r matches Ok(CheckReport::Versions(rep))
                && report_matches(rep, selection(cfg.nodes@, a.selector@), "OFED/RDMA"@, unknown_only()),
            CheckCmd::ClientMount(_) => r matches Ok(CheckReport::LiveMount),
            CheckCmd::StorageTarget(a) => match r {
                Ok(CheckReport::Storage(rep)) => storage_result(*cfg, *a, Ok(rep)),
                Err(e) => storage_result(*cfg, *a, Err(e)),
                _ => false,
            },
        },
{
    match cmd {
        CheckCmd::NvidiaDriver(a) => Ok(CheckReport::Versions(check_nvidia_driver(tr, cfg, a))),
        CheckCmd::Cuda(a) => Ok(CheckReport::Versions(check_cuda(tr, cfg, a))),
        CheckCmd::NvidiaFs(a) => Ok(CheckReport::Versions(check_nvidia_fs(tr, cfg, a))),
        CheckCmd::Ofed(a) => Ok(CheckReport::Versions(check_ofed(tr, cfg, a))),
        CheckCmd::ClientMount(_) => Ok(CheckReport::LiveMount),
        CheckCmd::StorageTarget(a) => match check_storage_target(tr, cfg, a) {
            Ok(rep) => Ok(CheckReport::Storage(rep)),
            Err(e) => Err(e),
        },
    }
}

/// The `(host, command)` pairs a one-shot check sends, in the order it
/// sends them: a version check's query to each selected node's host; the
/// storage check's service probe, then its listing, to its one node's host.
/// The live mount check sends its workers' commands (`client::NodeWorker`)
/// and has no plan here.
pub fn check_plan(cfg: &Config, cmd: &CheckCmd) -> (r: Result<Vec<(String, String)>, StorageError>)
    ensures
        kind_of(*cmd) matches Some(k) ==> (r matches Ok(p) && {
            let nodes = selection(cfg.nodes@, selector_of(*cmd));
            &&& p@.len() == nodes.len()
            &&& forall|i: int| 0 <= i < p@.len() ==> (#[trigger] p@[i]).0@ == nodes[i].host@ && p@[i].1@ == version_query(k)
        }),
        cmd is ClientMount ==> (r matches Ok(p) && p@.len() == 0),
        cmd matches CheckCmd::StorageTarget(a) ==> {
            let nodes = selection(cfg.nodes@, a.selector@);
            &&& nodes.len() != 1 ==> r == Err::<Vec<(String, String)>, StorageError>(StorageError::NotOneNode(nodes.len() as usize))
            &&& nodes.len() == 1 ==> (r matches Ok(p) && {
                &&& p@.len() == 2
                &&& p@[0].0@ == nodes[0].host@ && p@[0].1@ == with_timeout(service_query(), a.timeout as nat)
                &&& p@[1].0@ == nodes[0].host@ && p@[1].1@ == with_timeout(listing_query(), a.timeout as nat)
            })
        },
{
    let kind = match cmd {
        CheckCmd::NvidiaDriver(_) => CheckKind::NvidiaDriver,
        CheckCmd::Cuda(_) => CheckKind::Cuda,
        CheckCmd::NvidiaFs(_) => CheckKind::NvidiaFs,
        CheckCmd::Ofed(_) => CheckKind::Ofed,
        CheckCmd::ClientMount(_) => return Ok(Vec::new()),
        CheckCmd::StorageTarget(a) => {
            let plan = storage_plan(cfg, a)?;
            let mut r: Vec<(String, String)> = Vec::new();
            r.push((plan.host.clone(), plan.service_cmd));
            r.push((plan.host, plan.list_cmd));
            return Ok(r);
        },
    };
    let selector = match cmd {
        CheckCmd::NvidiaDriver(a) => a.selector.as_str(),
        CheckCmd::Cuda(a) => a.selector.as_str(),
        CheckCmd::NvidiaFs(a) => a.selector.as_str(),
        CheckCmd::Ofed(a) => a.selector.as_str(),
        CheckCmd::ClientMount(a) => a.selector.as_str(),
        CheckCmd::StorageTarget(a) => a.selector.as_str(),
    };
    let nodes = select_nodes(cfg, selector);
    let p = version_plan(&nodes, query_text(&kind));
    Ok(p)
}

} // verus!
