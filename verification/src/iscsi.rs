//! iSCSI session bookkeeping: the simulated initiator used in tests and CI, device naming,
//! and the decisions taken on `iscsiadm` results.
use vstd::prelude::*;

use crate::strmap::StrMap;
use crate::text::{
    chars_eq, chars_lines, chars_of, chars_starts_with, chars_trim, chars_words, clone_strings,
    contains, decimal, extend_chars, lines, push_decimal, push_signed_decimal, signed_decimal,
    starts_with, str_contains, string_of, string_views, trim, views, words,
};

verus! {

/// The lowercase letter for a value below 26.
pub open spec fn letter(k: nat) -> char {
    (k + 97) as char
}

/// The sd-device suffix of a 1-based value: the last letter is `v % 26`, preceded by the
/// suffix of `v / 26 - 1` when `v / 26` is not zero.
pub open spec fn sd_suffix(v: nat) -> Seq<char>
    decreases v,
{
    if v / 26 == 0 {
        seq![letter(v % 26)]
    } else {
        sd_suffix((v / 26 - 1) as nat).push(letter(v % 26))
    }
}

/// The suffix that `counter_to_sdname` gives for a counter value.
pub open spec fn spec_sdname(n: nat) -> Seq<char> {
    sd_suffix(n + 1)
}

fn letter_of(k: usize) -> (c: char)
    requires
        k < 26,
    ensures
        c == letter(k as nat),
{
    let alphabet = ['a', 'b', 'c', 'd', 'e', 'f', 'g', 'h', 'i', 'j', 'k', 'l', 'm', 'n', 'o',
        'p', 'q', 'r', 's', 't', 'u', 'v', 'w', 'x', 'y', 'z'];
    let c = alphabet[k];
    proof {
        assert(letter(k as nat) == alphabet@[k as int]) by {
            assert(((k + 97) as char) as int == k + 97);
            assert(alphabet@[k as int] as int == k + 97);
        }
    }
    c
}

fn push_sd_suffix(out: &mut Vec<char>, v: usize)
    ensures
        final(out)@ == old(out)@ + sd_suffix(v as nat),
    decreases v,
{
    if v / 26 != 0 {
        push_sd_suffix(out, v / 26 - 1);
    }
    let c = letter_of(v % 26);
    out.push(c);
    proof {
        if v / 26 != 0 {
            assert(old(out)@ + sd_suffix((v / 26 - 1) as nat) + seq![c] =~= old(out)@ + sd_suffix(
                v as nat,
            ));
        } else {
            assert(old(out)@ + seq![c] =~= old(out)@ + sd_suffix(v as nat));
        }
    }
}

/// Convert a monotone counter into a Linux-style sd-device suffix.
///
/// Follows the kernel naming convention (skipping `a` to avoid `sda`):
/// `0` → `"b"`, `1` → `"c"`, …, `24` → `"z"`, `25` → `"aa"`, `26` → `"ab"`, …
pub fn counter_to_sdname(n: usize) -> (s: String)
    requires
        n < usize::MAX,
    ensures
        s@ == spec_sdname(n as nat),
{
    let mut v: Vec<char> = Vec::new();
    push_sd_suffix(&mut v, n + 1);
    proof {
        assert(Seq::<char>::empty() + sd_suffix((n + 1) as nat) =~= sd_suffix((n + 1) as nat));
    }
    string_of(&v)
}

proof fn lemma_letter_injective(a: nat, b: nat)
    requires
        a < 26,
        b < 26,
        letter(a) == letter(b),
    ensures
        a == b,
{
    assert(((a + 97) as char) as int == a + 97);
    assert(((b + 97) as char) as int == b + 97);
}

proof fn lemma_sd_suffix_len(v: nat)
    ensures
        sd_suffix(v).len() >= 1,
        v >= 26 ==> sd_suffix(v).len() >= 2,
        v < 26 ==> sd_suffix(v).len() == 1,
    decreases v,
{
    if v / 26 != 0 {
        lemma_sd_suffix_len((v / 26 - 1) as nat);
    }
}

proof fn lemma_sd_suffix_injective(a: nat, b: nat)
    requires
        sd_suffix(a) == sd_suffix(b),
    ensures
        a == b,
    decreases a,
{
    lemma_sd_suffix_len(a);
    lemma_sd_suffix_len(b);
    let sa = sd_suffix(a);
    let sb = sd_suffix(b);
    assert(sa.last() == letter(a % 26));
    assert(sb.last() == letter(b % 26));
    lemma_letter_injective(a % 26, b % 26);
    if a >= 26 && b >= 26 {
        assert(sa.drop_last() =~= sd_suffix((a / 26 - 1) as nat));
        assert(sb.drop_last() =~= sd_suffix((b / 26 - 1) as nat));
        lemma_sd_suffix_injective((a / 26 - 1) as nat, (b / 26 - 1) as nat);
    }
}

/// Distinct counter values give distinct device names.
pub proof fn lemma_sdname_injective(a: nat, b: nat)
    requires
        a != b,
    ensures
        spec_sdname(a) != spec_sdname(b),
{
    if spec_sdname(a) == spec_sdname(b) {
        lemma_sd_suffix_injective(a + 1, b + 1);
    }
}

/// The device path for a counter value: `/dev/sd` and the suffix.
pub open spec fn device_path(c: nat) -> Seq<char> {
    "/dev/sd"@ + spec_sdname(c)
}

/// A device path issued at one counter value is never issued at another: a target that
/// logs in again after logging out gets a new device.
pub proof fn lemma_device_path_injective(a: nat, b: nat)
    requires
        a != b,
    ensures
        device_path(a) != device_path(b),
{
    lemma_sdname_injective(a, b);
    let p = "/dev/sd"@;
    if device_path(a) == device_path(b) {
        assert(device_path(a).skip(p.len() as int) =~= spec_sdname(a));
        assert(device_path(b).skip(p.len() as int) =~= spec_sdname(b));
    }
}

/// Simulated iSCSI initiator state: sessions, discoverable targets per portal, and the
/// A login to, or a logout from, a target, by IQN.
pub enum IscsiOp {
    Login(Seq<char>),
    Logout(Seq<char>),
}

/// The sessions and device counter after one operation: a login of a target without a
/// session opens one on the device of the current counter value and advances the
/// counter; a login of a logged-in target changes nothing; a logout closes the session.
pub open spec fn op_step(sessions: Map<Seq<char>, Seq<char>>, counter: nat, op: IscsiOp) -> (
    Map<Seq<char>, Seq<char>>,
    nat,
) {
    match op {
        IscsiOp::Login(q) => if sessions.contains_key(q) {
            (sessions, counter)
        } else {
            (sessions.insert(q, device_path(counter)), counter + 1)
        },
        IscsiOp::Logout(q) => (sessions.remove(q), counter),
    }
}

/// The device a login of `q` gives: its session's device, or a new one.
pub open spec fn op_device(sessions: Map<Seq<char>, Seq<char>>, counter: nat, q: Seq<char>) -> Seq<
    char,
> {
    if sessions.contains_key(q) {
        sessions[q]
    } else {
        device_path(counter)
    }
}

/// The sessions and counter after a sequence of operations on a fresh initiator.
pub open spec fn run_ops(ops: Seq<IscsiOp>) -> (Map<Seq<char>, Seq<char>>, nat)
    decreases ops.len(),
{
    if ops.len() == 0 {
        (Map::empty(), 0)
    } else {
        let prev = run_ops(ops.drop_last());
        op_step(prev.0, prev.1, ops.last())
    }
}

/// Operation `i` is a login of a target that had no session then.
pub open spec fn creates_session(ops: Seq<IscsiOp>, i: int) -> bool {
    &&& 0 <= i < ops.len()
    &&& ops[i] matches IscsiOp::Login(q)
    &&& !run_ops(ops.take(i)).0.contains_key(q)
}

/// The number of operations before `i` that opened a session.
pub open spec fn sessions_opened(ops: Seq<IscsiOp>, i: int) -> nat
    decreases i,
{
    if i <= 0 {
        0
    } else {
        sessions_opened(ops, i - 1) + if creates_session(ops, i - 1) {
            1nat
        } else {
            0nat
        }
    }
}

/// The device that operation `i`, a login, gives.
pub open spec fn login_device(ops: Seq<IscsiOp>, i: int) -> Seq<char> {
    match ops[i] {
        IscsiOp::Login(q) => op_device(run_ops(ops.take(i)).0, run_ops(ops.take(i)).1, q),
        IscsiOp::Logout(_) => Seq::empty(),
    }
}

proof fn lemma_run_counter(ops: Seq<IscsiOp>, i: int)
    requires
        0 <= i <= ops.len(),
    ensures
        run_ops(ops.take(i)).1 == sessions_opened(ops, i),
    decreases i,
{
    if i == 0 {
        assert(ops.take(0) =~= Seq::<IscsiOp>::empty());
    } else {
        lemma_run_counter(ops, i - 1);
        assert(ops.take(i).drop_last() =~= ops.take(i - 1));
        assert(ops.take(i).last() == ops[i - 1]);
    }
}

proof fn lemma_opened_monotone(ops: Seq<IscsiOp>, i: int, j: int)
    requires
        0 <= i <= j,
    ensures
        sessions_opened(ops, i) <= sessions_opened(ops, j),
    decreases j - i,
{
    if i < j {
        lemma_opened_monotone(ops, i, j - 1);
    }
}

/// Over any history of logins and logouts on a fresh simulated initiator, a login that
/// opens a session gets `/dev/sd` and the name of the number of sessions opened before
/// it, so the first gets `/dev/sdb`; two logins that open sessions never get the same
/// device, also for one target logging in again after a logout; and a login of a
/// logged-in target gives back its session's device.
pub proof fn lemma_login_history(ops: Seq<IscsiOp>, i: int, j: int)
    requires
        0 <= i < ops.len(),
        0 <= j < ops.len(),
    ensures
        creates_session(ops, i) ==> login_device(ops, i) == device_path(sessions_opened(ops, i)),
        creates_session(ops, i) && sessions_opened(ops, i) == 0 ==> login_device(ops, i)
            == "/dev/sdb"@,
        creates_session(ops, i) && creates_session(ops, j) && i != j ==> login_device(ops, i)
            != login_device(ops, j),
        match ops[i] {
            IscsiOp::Login(q) => run_ops(ops.take(i)).0.contains_key(q) ==> login_device(ops, i)
                == run_ops(ops.take(i)).0[q],
            IscsiOp::Logout(_) => true,
        },
{
    lemma_run_counter(ops, i);
    lemma_run_counter(ops, j);
    if creates_session(ops, i) && sessions_opened(ops, i) == 0 {
        reveal_strlit("/dev/sdb");
        reveal_strlit("/dev/sd");
        assert(spec_sdname(0) =~= seq!['b']);
        assert(device_path(0) =~= "/dev/sdb"@);
    }
    if creates_session(ops, i) && creates_session(ops, j) && i != j {
        let (a, b) = if i < j {
            (i, j)
        } else {
            (j, i)
        };
        lemma_opened_monotone(ops, a + 1, b);
        lemma_device_path_injective(sessions_opened(ops, a), sessions_opened(ops, b));
    }
}

/// counter that names devices.
pub struct MockIscsiState {
    /// Active sessions: target IQN → block device path.
    sessions: StrMap<String>,
    /// Discoverable targets per portal: portal IP → IQNs.
    targets: StrMap<Vec<String>>,
    /// Monotone counter used to produce unique device paths.
    device_counter: usize,
}

impl MockIscsiState {
    /// Active sessions: IQN → device path.
    pub closed spec fn sessions(&self) -> Map<Seq<char>, Seq<char>> {
        Map::new(
            |k: Seq<char>| self.sessions@.contains_key(k),
            |k: Seq<char>| self.sessions@[k]@,
        )
    }

    /// Discoverable targets per portal.
    pub closed spec fn targets(&self) -> Map<Seq<char>, Seq<Seq<char>>> {
        Map::new(
            |k: Seq<char>| self.targets@.contains_key(k),
            |k: Seq<char>| string_views(self.targets@[k]@),
        )
    }

    /// The next device counter value.
    pub closed spec fn counter(&self) -> nat {
        self.device_counter as nat
    }

    /// Every session holds the device of an earlier counter value, and no two sessions share one.
    pub closed spec fn wf(&self) -> bool {
        &&& self.sessions.wf()
        &&& self.targets.wf()
        &&& forall|k: Seq<char>|
            #[trigger] self.sessions@.contains_key(k) ==> exists|c: nat|
                c < self.device_counter && self.sessions@[k]@ == device_path(c)
        &&& forall|k1: Seq<char>, k2: Seq<char>|
            #[trigger] self.sessions@.contains_key(k1) && #[trigger] self.sessions@.contains_key(k2)
                && k1 != k2 ==> self.sessions@[k1]@ != self.sessions@[k2]@
    }

    /// Distinct sessions are backed by distinct devices.
    pub proof fn lemma_distinct_devices(&self, k1: Seq<char>, k2: Seq<char>)
        requires
            self.wf(),
            self.sessions().contains_key(k1),
            self.sessions().contains_key(k2),
            k1 != k2,
        ensures
            self.sessions()[k1] != self.sessions()[k2],
    {
        assert(self.sessions@.contains_key(k1) && self.sessions@.contains_key(k2));
    }

    /// The next device counter value.
    pub fn device_counter(&self) -> (n: usize)
        ensures
            n as nat == self.counter(),
    {
        self.device_counter
    }

    /// A state with no sessions and no targets.
    pub fn new() -> (s: Self)
        ensures
            s.wf(),
            s.sessions() == Map::<Seq<char>, Seq<char>>::empty(),
            s.targets() == Map::<Seq<char>, Seq<Seq<char>>>::empty(),
            s.counter() == 0,
    {
        let s = MockIscsiState { sessions: StrMap::new(), targets: StrMap::new(), device_counter: 0 };
        proof {
            assert(s.sessions() =~= Map::<Seq<char>, Seq<char>>::empty());
            assert(s.targets() =~= Map::<Seq<char>, Seq<Seq<char>>>::empty());
        }
        s
    }

    /// Pre-configures the IQNs that `discover_targets` returns for `portal_ip`.
    pub fn add_portal_targets(&mut self, portal_ip: &str, iqns: Vec<String>)
        requires
            old(self).wf(),
        ensures
            final(self).wf(),
            final(self).targets() == old(self).targets().insert(
                portal_ip@,
                string_views(iqns@),
            ),
            final(self).sessions() == old(self).sessions(),
            final(self).counter() == old(self).counter(),
    {
        let ghost iv = iqns@;
        self.targets.insert(portal_ip.to_owned(), iqns);
        proof {
            assert(self.targets() =~= old(self).targets().insert(
                portal_ip@,
                string_views(iv),
            ));
            assert(self.sessions() =~= old(self).sessions());
        }
    }

    /// The IQNs configured for a portal; none for an unknown portal.
    pub fn discover_targets(&self, portal_ip: &str) -> (r: Vec<String>)
        requires
            self.wf(),
        ensures
            string_views(r@) == (if self.targets().contains_key(portal_ip@) {
                self.targets()[portal_ip@]
            } else {
                Seq::<Seq<char>>::empty()
            }),
    {
        match self.targets.get(portal_ip) {
            Some(v) => clone_strings(v),
            None => {
                let out: Vec<String> = Vec::new();
                proof {
                    assert(string_views(out@) =~= Seq::<Seq<char>>::empty());
                }
                out
            },
        }
    }

    /// Logs into a target and returns its device path. A target that is already logged in
    /// keeps its device; a new session gets the device of the current counter value, and
    /// the counter advances.
    pub fn login_target(&mut self, target_iqn: &str) -> (dev: String)
        requires
            old(self).wf(),
            old(self).counter() < usize::MAX,
        ensures
            final(self).wf(),
            final(self).targets() == old(self).targets(),
            old(self).sessions().contains_key(target_iqn@) ==> {
                &&& dev@ == old(self).sessions()[target_iqn@]
                &&& final(self).sessions() == old(self).sessions()
                &&& final(self).counter() == old(self).counter()
            },
            !old(self).sessions().contains_key(target_iqn@) ==> {
                &&& dev@ == device_path(old(self).counter())
                &&& final(self).sessions() == old(self).sessions().insert(target_iqn@, dev@)
                &&& final(self).counter() == old(self).counter() + 1
            },
            (final(self).sessions(), final(self).counter()) == op_step(
                old(self).sessions(),
                old(self).counter(),
                IscsiOp::Login(target_iqn@),
            ),
            dev@ == op_device(old(self).sessions(), old(self).counter(), target_iqn@),
    {
        match self.sessions.get(target_iqn) {
            Some(path) => {
                return path.clone();
            },
            None => {},
        }
        let mut name = chars_of("/dev/sd");
        let suffix = counter_to_sdname(self.device_counter);
        let sv = chars_of(suffix.as_str());
        extend_chars(&mut name, &sv);
        let dev = string_of(&name);
        let ghost c = self.device_counter as nat;
        proof {
            assert(dev@ == device_path(c));
            assert forall|k: Seq<char>| #[trigger] self.sessions@.contains_key(k) implies self.sessions@[k]@
                != dev@ by {
                let c2 = choose|c2: nat| c2 < self.device_counter && self.sessions@[k]@ == device_path(c2);
                lemma_device_path_injective(c2, c);
            }
        }
        self.sessions.insert(target_iqn.to_owned(), dev.clone());
        self.device_counter = self.device_counter + 1;
        proof {
            assert forall|k: Seq<char>| #[trigger] self.sessions@.contains_key(k) implies exists|c2: nat|
                c2 < self.device_counter && self.sessions@[k]@ == device_path(c2) by {
                if k != target_iqn@ {
                    let c2 = choose|c2: nat|
                        c2 < old(self).device_counter && old(self).sessions@[k]@ == device_path(c2);
                    assert(c2 < self.device_counter);
                } else {
                    assert(self.sessions@[k]@ == device_path(c));
                }
            }
            assert(self.sessions() =~= old(self).sessions().insert(target_iqn@, dev@));
            assert(self.targets() =~= old(self).targets());
        }
        dev
    }

    /// Logs out of a target (a target that is not logged in is left as it is).
    pub fn logout_target(&mut self, target_iqn: &str)
        requires
            old(self).wf(),
        ensures
            final(self).wf(),
            final(self).sessions() == old(self).sessions().remove(target_iqn@),
            final(self).targets() == old(self).targets(),
            final(self).counter() == old(self).counter(),
            (final(self).sessions(), final(self).counter()) == op_step(
                old(self).sessions(),
                old(self).counter(),
                IscsiOp::Logout(target_iqn@),
            ),
    {
        self.sessions.remove(target_iqn);
        proof {
            assert forall|k: Seq<char>| #[trigger] self.sessions@.contains_key(k) implies exists|c2: nat|
                c2 < self.device_counter && self.sessions@[k]@ == device_path(c2) by {
                assert(old(self).sessions@.contains_key(k));
            }
            assert forall|k1: Seq<char>, k2: Seq<char>|
                #[trigger] self.sessions@.contains_key(k1) && #[trigger] self.sessions@.contains_key(k2)
                    && k1 != k2 implies self.sessions@[k1]@ != self.sessions@[k2]@ by {
                assert(old(self).sessions@.contains_key(k1) && old(self).sessions@.contains_key(k2));
            }
            assert(self.sessions() =~= old(self).sessions().remove(target_iqn@));
            assert(self.targets() =~= old(self).targets());
        }
    }
}

/// The targets listed by `iscsiadm -m discovery`: the second whitespace-separated field of
/// each line that has one.
pub open spec fn discovery_targets(ls: Seq<Seq<char>>) -> Seq<Seq<char>>
    decreases ls.len(),
{
    if ls.len() == 0 {
        Seq::<Seq<char>>::empty()
    } else {
        let r = discovery_targets(ls.drop_last());
        let w = words(ls.last());
        if w.len() >= 2 {
            r.push(w[1])
        } else {
            r
        }
    }
}

/// Parses the output of `iscsiadm -m discovery -t st -p <portal>` into target IQNs.
pub fn parse_discovery_output(output: &str) -> (targets: Vec<String>)
    ensures
        string_views(targets@) == discovery_targets(lines(output@)),
{
    let text = chars_of(output);
    let ls = chars_lines(&text);
    let ghost lv = views(ls@);
    let mut out: Vec<String> = Vec::new();
    let mut i: usize = 0;
    while i < ls.len()
        invariant
            lv == views(ls@),
            lv == lines(output@),
            i <= ls@.len(),
            string_views(out@) == discovery_targets(lv.take(i as int)),
        decreases ls@.len() - i,
    {
        let w = chars_words(&ls[i]);
        proof {
            assert(lv.take(i + 1).drop_last() =~= lv.take(i as int));
            assert(lv.take(i + 1).last() == ls@[i as int]@);
            assert(views(w@).len() == w@.len());
        }
        if w.len() >= 2 {
            proof {
                assert(views(w@)[1] == w@[1]@);
            }
            out.push(string_of(&w[1]));
            proof {
                assert(string_views(out@) =~= discovery_targets(lv.take(i as int)).push(
                    w@[1]@,
                ));
            }
        }
        i = i + 1;
    }
    proof {
        assert(lv.take(ls@.len() as int) =~= lv);
    }
    out
}

/// Whether an `iscsiadm --login` run counts as a login: success, or exit code 15
/// (`ISCSI_ERR_SESS_EXISTS`, already logged in). A missing exit code counts as -1.
pub fn check_login_status(success: bool, code: Option<i32>) -> (r: Result<(), String>)
    ensures
        ({
            let c: int = match code {
                Some(c) => c as int,
                None => -1,
            };
            match r {
                Ok(()) => success || c == 15,
                Err(e) => !success && c != 15 && e@ == "iscsiadm login failed with exit code "@
                    + signed_decimal(c),
            }
        }),
{
    let c: i32 = match code {
        Some(c) => c,
        None => -1,
    };
    if !success && c != 15 {
        let mut msg = chars_of("iscsiadm login failed with exit code ");
        push_signed_decimal(&mut msg, c as i64);
        return Err(string_of(&msg));
    }
    Ok(())
}

/// The initiator that drives `iscsiadm`.
pub struct RealIscsiManager;

/// Attempts made to find the block device of a new session.
pub const LOGIN_DEVICE_RETRIES: u32 = 10;

/// Pause between those attempts, in milliseconds.
pub const LOGIN_DEVICE_RETRY_DELAY_MS: u64 = 200;

/// The arguments of `iscsiadm` that discover the targets of a portal.
pub fn discovery_args(portal_ip: &str) -> (args: Vec<String>)
    ensures
        string_views(args@) == seq!["-m"@, "discovery"@, "-t"@, "st"@, "-p"@, portal_ip@],
{
    let mut args: Vec<String> = Vec::new();
    args.push(String::from_str("-m"));
    args.push(String::from_str("discovery"));
    args.push(String::from_str("-t"));
    args.push(String::from_str("st"));
    args.push(String::from_str("-p"));
    args.push(portal_ip.to_owned());
    proof {
        assert(string_views(args@) =~= seq!["-m"@, "discovery"@, "-t"@, "st"@, "-p"@, portal_ip@]);
    }
    args
}

/// The arguments of `iscsiadm` that act on a node: log in at a portal (`Some`) with
/// `--login`, or pass another action (`--logout`, `--rescan`) without a portal.
pub fn node_args(target_iqn: &str, portal_ip: Option<&str>, action: &str) -> (args: Vec<String>)
    ensures
        string_views(args@) == seq!["-m"@, "node"@, "-T"@, target_iqn@] + match portal_ip {
            Some(p) => seq!["-p"@, p@],
            None => Seq::<Seq<char>>::empty(),
        } + seq![action@],
{
    let mut args: Vec<String> = Vec::new();
    args.push(String::from_str("-m"));
    args.push(String::from_str("node"));
    args.push(String::from_str("-T"));
    args.push(target_iqn.to_owned());
    let ghost head = string_views(args@);
    match portal_ip {
        Some(p) => {
            args.push(String::from_str("-p"));
            args.push(p.to_owned());
        },
        None => {},
    }
    args.push(action.to_owned());
    proof {
        assert(string_views(args@) =~= seq!["-m"@, "node"@, "-T"@, target_iqn@] + match portal_ip {
            Some(p) => seq!["-p"@, p@],
            None => Seq::<Seq<char>>::empty(),
        } + seq![action@]);
    }
    args
}

/// A sysfs entry of an iSCSI session that is a SCSI target directory: its name starts
/// with `target` and holds a `:` (the `targetname` attribute file does not).
pub fn is_target_dir_name(name: &str, is_dir: bool) -> (r: bool)
    ensures
        r == (starts_with(name@, "target"@) && contains(name@, ":"@) && is_dir),
{
    let nv = chars_of(name);
    let p = chars_of("target");
    chars_starts_with(&nv, &p) && str_contains(name, ":") && is_dir
}

/// A session's `targetname` attribute names the target (surrounding whitespace ignored).
pub fn session_matches(targetname: &str, target_iqn: &str) -> (r: bool)
    ensures
        r == (trim(targetname@) == target_iqn@),
{
    let tv = chars_of(targetname);
    let t = chars_trim(&tv);
    let iv = chars_of(target_iqn);
    chars_eq(&t, &iv)
}

/// The device path of a block device found in sysfs: `/dev/<name>`.
pub fn block_device_path(name: &str) -> (p: String)
    ensures
        p@ == "/dev/"@ + name@,
{
    crate::text::concat2("/dev/", name)
}

/// The error for a target with no session or no block device.
pub fn no_block_device_error(target_iqn: &str) -> (e: String)
    ensures
        e@ == "No block device found for iSCSI target: "@ + target_iqn@,
{
    crate::text::concat2("No block device found for iSCSI target: ", target_iqn)
}

/// The error for a login whose block device did not appear in time: the wait, in
/// milliseconds, is all the retries' pauses.
pub fn login_timeout_error(target_iqn: &str) -> (e: String)
    ensures
        e@ == "Block device not found for iSCSI target '"@ + target_iqn@ + "' after "@ + decimal(
            (LOGIN_DEVICE_RETRIES as nat) * (LOGIN_DEVICE_RETRY_DELAY_MS as nat),
        ) + "ms"@,
{
    let mut v = chars_of("Block device not found for iSCSI target '");
    extend_chars(&mut v, &chars_of(target_iqn));
    extend_chars(&mut v, &chars_of("' after "));
    push_decimal(&mut v, LOGIN_DEVICE_RETRIES as u64 * LOGIN_DEVICE_RETRY_DELAY_MS);
    extend_chars(&mut v, &chars_of("ms"));
    string_of(&v)
}

} // verus!
