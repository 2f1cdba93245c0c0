//! Content-based message routing inspired by the Plan 9 plumber.
//!
//! Rules are kept in descending priority order; a message goes to the
//! destination of every rule whose pattern matches its canonical text and
//! whose header constraints it meets, or to `/proc/log` when none does.
use vstd::prelude::*;
use vstd::string::*;
use regex::Regex;
use crate::message::{get_header, header_value, header_view, Message};
use crate::text::owned;

verus! {

/// `regex::Regex`, carried as an opaque compiled pattern.
#[verifier::external_type_specification]
#[verifier::external_body]
pub struct ExRegex(Regex);

/// `regex::Error`, the reason a pattern does not compile.
#[verifier::external_type_specification]
#[verifier::external_body]
pub struct ExRegexError(regex::Error);

/// The source pattern of a compiled regex, as `Regex::as_str` returns it.
pub uninterp spec fn regex_source(re: Regex) -> Seq<char>;

/// Whether `Regex::new` accepts a pattern.
pub uninterp spec fn regex_compiles(pattern: Seq<char>) -> bool;

/// Whether the regex that `Regex::new` compiles from `pattern` matches
/// somewhere in `haystack`, as `Regex::is_match` answers.
pub uninterp spec fn regex_is_match(pattern: Seq<char>, haystack: Seq<char>) -> bool;

/// `Regex::new`: compiles `pattern`; the compiled regex keeps the pattern as
/// its source (`as_str` returns it, as the crate documents).
#[verifier::external_body]
fn compile_pattern(pattern: &str) -> (r: Result<Regex, regex::Error>)
    ensures
        (r is Ok) == regex_compiles(pattern@),
        r matches Ok(re) ==> regex_source(re) == pattern@,
{
    Regex::new(pattern)
}

/// `Regex::as_str`: the source pattern of a compiled regex.
#[verifier::external_body]
fn regex_text(re: &Regex) -> (r: &str)
    ensures
        r@ == regex_source(*re),
{
    re.as_str()
}

/// `Regex::new` then `Regex::is_match`: whether the pattern compiles and
/// the compiled regex matches anywhere in `haystack`.
#[verifier::external_body]
fn pattern_matches(pattern: &str, haystack: &str) -> (r: bool)
    ensures
        r == (regex_compiles(pattern@) && regex_is_match(pattern@, haystack@)),
{
    match Regex::new(pattern) {
        Ok(re) => re.is_match(haystack),
        Err(_) => false,
    }
}

/// `regex::Error`'s `Display` text; nothing is claimed of it.
#[verifier::external_body]
fn regex_error_text(e: &regex::Error) -> (r: String) {
    e.to_string()
}

/// Content-based routing rule.
#[derive(Debug)]
pub struct PlumberRule {
    pub name: String,
    pub pattern: Regex,
    pub destination: String,
    pub priority: i32,
    pub header_match: Option<Vec<(String, String)>>,
}

/// The mathematical content of a rule.
pub struct RuleView {
    pub name: Seq<char>,
    pub pattern: Seq<char>,
    pub destination: Seq<char>,
    pub priority: int,
    pub header_match: Option<Seq<(Seq<char>, Seq<char>)>>,
}

impl PlumberRule {
    pub open spec fn view(&self) -> RuleView {
        RuleView {
            name: self.name@,
            pattern: regex_source(self.pattern),
            destination: self.destination@,
            priority: self.priority as int,
            header_match: match self.header_match {
                Some(h) => Some(header_view(h@)),
                None => None,
            },
        }
    }
}

/// The views of a list of rules.
pub open spec fn rule_views(rules: Seq<PlumberRule>) -> Seq<RuleView> {
    rules.map_values(|r: PlumberRule| r.view())
}

/// A pattern that does not compile.
#[derive(Debug, Clone)]
pub struct PlumberError {
    pub pattern: String,
    pub reason: String,
}

/// The canonical text a message is matched against:
/// `type:{type} sender:{sender} path:{path} data:{data}`.
pub open spec fn haystack(m: Message) -> Seq<char> {
    "type:"@ + m.msg_type@ + " sender:"@ + m.sender@ + " path:"@ + m.path@ + " data:"@ + m.data@
}

/// The canonical text a rule's pattern is matched against carries every
/// field of the message in order, the data last: it reads `type:`, the
/// type, ` sender:`, the sender, ` path:`, the path, ` data:` and the data,
/// so a pattern on the payload can match.
pub proof fn canonical_text_carries_the_message(m: Message)
    ensures
        ({
            let h = haystack(m);
            let t = m.msg_type@.len() as int;
            let s = m.sender@.len() as int;
            let p = m.path@.len() as int;
            let d = m.data@.len() as int;
            &&& h.len() == 5 + t + 8 + s + 6 + p + 6 + d
            &&& h.subrange(0, 5) == "type:"@
            &&& h.subrange(5, 5 + t) == m.msg_type@
            &&& h.subrange(5 + t, 13 + t) == " sender:"@
            &&& h.subrange(13 + t, 13 + t + s) == m.sender@
            &&& h.subrange(13 + t + s, 19 + t + s) == " path:"@
            &&& h.subrange(19 + t + s, 19 + t + s + p) == m.path@
            &&& h.subrange(h.len() - d - 6, h.len() - d) == " data:"@
            &&& h.subrange(h.len() - d, h.len() as int) == m.data@
        }),
{
    reveal_strlit("type:");
    reveal_strlit(" sender:");
    reveal_strlit(" path:");
    reveal_strlit(" data:");
    let h = haystack(m);
    let t = m.msg_type@.len() as int;
    let s = m.sender@.len() as int;
    let p = m.path@.len() as int;
    let d = m.data@.len() as int;
    assert(h.subrange(0, 5) =~= "type:"@);
    assert(h.subrange(5, 5 + t) =~= m.msg_type@);
    assert(h.subrange(5 + t, 13 + t) =~= " sender:"@);
    assert(h.subrange(13 + t, 13 + t + s) =~= m.sender@);
    assert(h.subrange(13 + t + s, 19 + t + s) =~= " path:"@);
    assert(h.subrange(19 + t + s, 19 + t + s + p) =~= m.path@);
    assert(h.subrange(h.len() - d - 6, h.len() - d) =~= " data:"@);
    assert(h.subrange(h.len() - d, h.len() as int) =~= m.data@);
}

/// Every required header is present on the message with the required value.
pub open spec fn headers_required(required: Seq<(Seq<char>, Seq<char>)>, m: Message) -> bool {
    forall|i: int| 0 <= i < required.len() ==> header_value(header_view(m.headers@), #[trigger] required[i].0) == Some(required[i].1)
}

/// Whether a rule routes a message: its pattern, compiled by
/// `Regex::new`, matches the canonical text, and the message carries the
/// required headers.
pub open spec fn rule_matches(r: RuleView, m: Message) -> bool {
    &&& regex_compiles(r.pattern)
    &&& regex_is_match(r.pattern, haystack(m))
    &&& match r.header_match {
        Some(h) => headers_required(h, m),
        None => true,
    }
}

/// The destinations of the matching rules, in rule order.
pub open spec fn matching_destinations(rules: Seq<RuleView>, m: Message) -> Seq<Seq<char>>
    decreases rules.len(),
{
    if rules.len() == 0 {
        Seq::empty()
    } else {
        let before = matching_destinations(rules.drop_last(), m);
        if rule_matches(rules.last(), m) { before.push(rules.last().destination) } else { before }
    }
}

/// Where the plumber sends a message: the matching destinations, or
/// `/proc/log` when no rule matches.
pub open spec fn plumbed(rules: Seq<RuleView>, m: Message) -> Seq<Seq<char>> {
    let d = matching_destinations(rules, m);
    if d.len() == 0 { seq!["/proc/log"@] } else { d }
}

/// The rules are in descending priority order.
pub open spec fn by_priority(rules: Seq<RuleView>) -> bool {
    forall|i: int, j: int| 0 <= i < j < rules.len() ==> #[trigger] rules[i].priority >= #[trigger] rules[j].priority
}

/// Where a rule of the given priority is placed: after every rule of equal
/// or higher priority.
pub open spec fn slot(rules: Seq<RuleView>, priority: int) -> int
    decreases rules.len(),
{
    if rules.len() == 0 {
        0
    } else if rules[0].priority < priority {
        0
    } else {
        1 + slot(rules.drop_first(), priority)
    }
}

/// The rules after adding `r` in its priority slot.
pub open spec fn with_rule(rules: Seq<RuleView>, r: RuleView) -> Seq<RuleView> {
    rules.insert(slot(rules, r.priority), r)
}

/// The rule that `add_rule` builds from its arguments.
pub open spec fn new_rule(name: Seq<char>, pattern: Seq<char>, destination: Seq<char>, priority: int, header_match: Option<Seq<(Seq<char>, Seq<char>)>>) -> RuleView {
    RuleView { name, pattern, destination, priority, header_match }
}

proof fn slot_facts(rules: Seq<RuleView>, priority: int)
    requires
        by_priority(rules),
    ensures
        0 <= slot(rules, priority) <= rules.len(),
        forall|i: int| 0 <= i < slot(rules, priority) ==> rules[i].priority >= priority,
        forall|i: int| slot(rules, priority) <= i < rules.len() ==> rules[i].priority < priority,
    decreases rules.len(),
{
    if rules.len() > 0 && rules[0].priority >= priority {
        let rest = rules.drop_first();
        assert(by_priority(rest)) by {
            assert forall|i: int, j: int| 0 <= i < j < rest.len() implies #[trigger] rest[i].priority >= #[trigger] rest[j].priority by {
                assert(rest[i] == rules[i + 1]);
                assert(rest[j] == rules[j + 1]);
            }
        }
        slot_facts(rest, priority);
        assert forall|i: int| 0 <= i < slot(rules, priority) implies rules[i].priority >= priority by {
            if i > 0 {
                assert(rules[i] == rest[i - 1]);
            }
        }
        assert forall|i: int| slot(rules, priority) <= i < rules.len() implies rules[i].priority < priority by {
            assert(rules[i] == rest[i - 1]);
        }
    } else if rules.len() > 0 {
        assert forall|i: int| 0 <= i < rules.len() implies rules[i].priority < priority by {
            if i > 0 {
                assert(rules[0].priority >= rules[i].priority);
            }
        }
    }
}

/// Adding a rule keeps the rules in descending priority order, and places
/// it after every rule of equal or higher priority and before every rule of
/// lower priority.
pub proof fn adding_keeps_priority_order(rules: Seq<RuleView>, r: RuleView)
    requires
        by_priority(rules),
    ensures
        by_priority(with_rule(rules, r)),
        with_rule(rules, r)[slot(rules, r.priority)] == r,
        forall|i: int| 0 <= i < slot(rules, r.priority) ==> with_rule(rules, r)[i].priority >= r.priority,
        forall|i: int| slot(rules, r.priority) < i < with_rule(rules, r).len() ==> with_rule(rules, r)[i].priority < r.priority,
{
    slot_facts(rules, r.priority);
    let k = slot(rules, r.priority);
    let after = with_rule(rules, r);
    assert forall|i: int, j: int| 0 <= i < j < after.len() implies #[trigger] after[i].priority >= #[trigger] after[j].priority by {
        if j < k {
        } else if j == k {
        } else if i < k {
            assert(after[j] == rules[j - 1]);
        } else if i == k {
            assert(after[j] == rules[j - 1]);
        } else {
            assert(after[i] == rules[i - 1]);
            assert(after[j] == rules[j - 1]);
        }
    }
}

proof fn no_matches_no_destinations(rules: Seq<RuleView>, m: Message)
    requires
        forall|i: int| 0 <= i < rules.len() ==> !rule_matches(#[trigger] rules[i], m),
    ensures
        matching_destinations(rules, m).len() == 0,
    decreases rules.len(),
{
    if rules.len() > 0 {
        assert forall|i: int| 0 <= i < rules.drop_last().len() implies !rule_matches(#[trigger] rules.drop_last()[i], m) by {
            assert(rules.drop_last()[i] == rules[i]);
        }
        no_matches_no_destinations(rules.drop_last(), m);
        assert(!rule_matches(rules[rules.len() - 1], m));
    }
}

/// A message no rule matches goes to `/proc/log` alone.
pub proof fn unmatched_messages_go_to_log(rules: Seq<RuleView>, m: Message)
    requires
        forall|i: int| 0 <= i < rules.len() ==> !rule_matches(#[trigger] rules[i], m),
    ensures
        plumbed(rules, m) == seq!["/proc/log"@],
{
    no_matches_no_destinations(rules, m);
}

/// A message that some rule matches goes to the matching rules'
/// destinations, one per matching rule, in rule order.
pub proof fn matched_messages_go_to_rules(rules: Seq<RuleView>, m: Message, k: int)
    requires
        0 <= k < rules.len(),
        rule_matches(rules[k], m),
    ensures
        plumbed(rules, m) == matching_destinations(rules, m),
        matching_destinations(rules, m).contains(rules[k].destination),
    decreases rules.len(),
{
    if k < rules.len() - 1 {
        assert(rules.drop_last()[k] == rules[k]);
        matched_messages_go_to_rules(rules.drop_last(), m, k);
        let before = matching_destinations(rules.drop_last(), m);
        let i = choose|i: int| 0 <= i < before.len() && before[i] == rules[k].destination;
        if rule_matches(rules.last(), m) {
            assert(before.push(rules.last().destination)[i] == rules[k].destination);
        }
    } else {
        let before = matching_destinations(rules.drop_last(), m);
        assert(before.push(rules.last().destination)[before.len() as int] == rules[k].destination);
    }
}

/// The matching rules, in rule order.
pub open spec fn matching_rules(rules: Seq<RuleView>, m: Message) -> Seq<RuleView>
    decreases rules.len(),
{
    if rules.len() == 0 {
        Seq::empty()
    } else {
        let before = matching_rules(rules.drop_last(), m);
        if rule_matches(rules.last(), m) { before.push(rules.last()) } else { before }
    }
}

proof fn matching_rules_bounded(rules: Seq<RuleView>, m: Message, b: int)
    requires
        forall|j: int| 0 <= j < rules.len() ==> #[trigger] rules[j].priority >= b,
    ensures
        forall|i: int| 0 <= i < matching_rules(rules, m).len() ==> #[trigger] matching_rules(rules, m)[i].priority >= b,
    decreases rules.len(),
{
    if rules.len() > 0 {
        assert forall|j: int| 0 <= j < rules.drop_last().len() implies #[trigger] rules.drop_last()[j].priority >= b by {
            assert(rules.drop_last()[j] == rules[j]);
        }
        matching_rules_bounded(rules.drop_last(), m, b);
        assert(rules.last() == rules[rules.len() - 1]);
    }
}

/// The plumber routes by priority: the destinations it gives a message are
/// those of the matching rules, taken in rule order, and when the rules are
/// in descending priority order (as `Plumber` keeps them) so are the
/// matching rules.
pub proof fn routes_in_priority_order(rules: Seq<RuleView>, m: Message)
    ensures
        matching_destinations(rules, m) == matching_rules(rules, m).map_values(|r: RuleView| r.destination),
        by_priority(rules) ==> by_priority(matching_rules(rules, m)),
    decreases rules.len(),
{
    if rules.len() > 0 {
        let rest = rules.drop_last();
        routes_in_priority_order(rest, m);
        let mr = matching_rules(rest, m);
        assert(matching_destinations(rules, m) =~= matching_rules(rules, m).map_values(|r: RuleView| r.destination));
        if by_priority(rules) {
            assert(by_priority(rest)) by {
                assert forall|i: int, j: int| 0 <= i < j < rest.len() implies #[trigger] rest[i].priority >= #[trigger] rest[j].priority by {
                    assert(rest[i] == rules[i] && rest[j] == rules[j]);
                }
            }
            let last = rules.last();
            assert forall|j: int| 0 <= j < rest.len() implies #[trigger] rest[j].priority >= last.priority by {
                assert(rest[j] == rules[j]);
                assert(last == rules[rules.len() - 1]);
            }
            matching_rules_bounded(rest, m, last.priority);
            let all = matching_rules(rules, m);
            assert forall|i: int, j: int| 0 <= i < j < all.len() implies #[trigger] all[i].priority >= #[trigger] all[j].priority by {
                if rule_matches(last, m) {
                    assert(all == mr.push(last));
                    if j < mr.len() {
                        assert(all[i] == mr[i] && all[j] == mr[j]);
                    } else {
                        assert(all[i] == mr[i]);
                        assert(all[j] == last);
                    }
                }
            }
        }
    }
}

/// The plumber: an ordered list of rules.
#[derive(Debug)]
pub struct Plumber {
    rules: Vec<PlumberRule>,
}

/// Builds the canonical text a message is matched against.
fn haystack_of(msg: &Message) -> (r: String)
    ensures
        r@ == haystack(*msg),
{
    let mut h = String::from_str("type:");
    h.append(msg.msg_type.as_str());
    h.append(" sender:");
    h.append(msg.sender.as_str());
    h.append(" path:");
    h.append(msg.path.as_str());
    h.append(" data:");
    h.append(msg.data.as_str());
    h
}

/// A copy of an optional list of header requirements.
fn copy_headers(h: &Option<Vec<(String, String)>>) -> (r: Option<Vec<(String, String)>>)
    ensures
        match r { Some(v) => Some(header_view(v@)), None => None } == match *h { Some(v) => Some(header_view(v@)), None => None },
{
    match h {
        None => None,
        Some(v) => {
            let mut out: Vec<(String, String)> = Vec::new();
            let mut i: usize = 0;
            while i < v.len()
                invariant
                    i <= v@.len(),
                    header_view(out@) == header_view(v@).subrange(0, i as int),
                decreases v@.len() - i,
            {
                let ghost before = header_view(out@);
                let pair = (v[i].0.clone(), v[i].1.clone());
                out.push(pair);
                proof {
                    assert(header_view(v@)[i as int] == (v@[i as int].0@, v@[i as int].1@));
                    assert(header_view(out@) =~= before.push((pair.0@, pair.1@)));
                    assert(header_view(out@) =~= header_view(v@).subrange(0, i + 1));
                }
                i = i + 1;
            }
            proof {
                assert(header_view(v@).subrange(0, v@.len() as int) =~= header_view(v@));
            }
            Some(out)
        }
    }
}

/// Whether the message carries every required header value.
fn headers_hold(required: &Vec<(String, String)>, msg: &Message) -> (r: bool)
    ensures
        r == headers_required(header_view(required@), *msg),
{
    let ghost req = header_view(required@);
    let mut i: usize = 0;
    while i < required.len()
        invariant
            i <= required@.len(),
            req == header_view(required@),
            forall|j: int| 0 <= j < i ==> header_value(header_view(msg.headers@), #[trigger] req[j].0) == Some(req[j].1),
        decreases required@.len() - i,
    {
        let (key, value) = (&required[i].0, &required[i].1);
        match get_header(&msg.headers, key.as_str()) {
            Some(v) => {
                if !crate::text::same_text(v.as_str(), value.as_str()) {
                    proof {
                        assert(req[i as int].0 == key@);
                    }
                    return false;
                }
            }
            None => {
                proof {
                    assert(req[i as int].0 == key@);
                }
                return false;
            }
        }
        i = i + 1;
    }
    true
}

impl Plumber {
    /// The rules, in routing order.
    pub closed spec fn rules(&self) -> Seq<RuleView> {
        rule_views(self.rules@)
    }

    /// The plumber's invariant: rules in descending priority order.
    pub open spec fn wf(&self) -> bool {
        by_priority(self.rules())
    }

    /// Every plumber keeps its rules in descending priority order.
    #[verifier::type_invariant]
    spec fn ordered(&self) -> bool {
        self.wf()
    }

    pub fn new() -> (p: Self)
        ensures
            p.rules().len() == 0,
            p.wf(),
    {
        Plumber { rules: Vec::new() }
    }

    /// Compiles `pattern` and adds the rule after every rule of equal or
    /// higher priority; a pattern that does not compile is refused and the
    /// rules stay as they were.
    pub fn add_rule(&mut self, name: &str, pattern: &str, destination: &str, priority: i32, header_match: Option<Vec<(String, String)>>) -> (r: Result<(), PlumberError>)
        ensures
            final(self).wf(),
            (r is Ok) == regex_compiles(pattern@),
            r is Ok ==> final(self).rules() == with_rule(old(self).rules(), new_rule(name@, pattern@, destination@, priority as int, match header_match { Some(h) => Some(header_view(h@)), None => None })),
            r is Err ==> final(self).rules() == old(self).rules(),
            r matches Err(e) ==> e.pattern@ == pattern@,
    {
        proof {
            use_type_invariant(&*self);
        }
        match compile_pattern(pattern) {
            Err(e) => {
                Err(PlumberError { pattern: owned(pattern), reason: regex_error_text(&e) })
            }
            Ok(re) => {
                let ghost before = self.rules();
                let rule = PlumberRule {
                    name: owned(name),
                    pattern: re,
                    destination: owned(destination),
                    priority,
                    header_match,
                };
                let ghost rv = rule.view();
                let mut i: usize = 0;
                proof {
                    slot_facts(before, priority as int);
                }
                while i < self.rules.len() && self.rules[i].priority >= priority
                    invariant
                        i <= self.rules@.len(),
                        self.rules() == before,
                        by_priority(before),
                        i <= slot(before, priority as int),
                        0 <= slot(before, priority as int) <= before.len(),
                        forall|k: int| slot(before, priority as int) <= k < before.len() ==> before[k].priority < priority,
                    decreases self.rules@.len() - i,
                {
                    proof {
                        assert(before[i as int] == self.rules@[i as int].view());
                    }
                    i = i + 1;
                }
                proof {
                    if i < self.rules@.len() {
                        assert(before[i as int] == self.rules@[i as int].view());
                    }
                    assert(i == slot(before, priority as int));
                    adding_keeps_priority_order(before, rv);
                }
                let mut rules: Vec<PlumberRule> = Vec::new();
                std::mem::swap(&mut rules, &mut self.rules);
                rules.insert(i, rule);
                proof {
                    assert(rule_views(rules@) =~= before.insert(i as int, rv));
                }
                self.rules = rules;
                Ok(())
            }
        }
    }

    /// Whether `rule` routes `msg`. The rule's pattern text is compiled
    /// with `Regex::new` for the match, so a regex built with other options
    /// matches as its plain pattern does.
    fn matches(&self, rule: &PlumberRule, msg: &Message) -> (r: bool)
        ensures
            r == rule_matches(rule.view(), *msg),
    {
        let hay = haystack_of(msg);
        if !pattern_matches(regex_text(&rule.pattern), hay.as_str()) {
            return false;
        }
        match &rule.header_match {
            Some(h) => headers_hold(h, msg),
            None => true,
        }
    }

    /// The destinations of every matching rule, in rule order, or
    /// `/proc/log` when no rule matches.
    pub fn route(&self, msg: &Message) -> (r: Vec<String>)
        ensures
            r@.map_values(|d: String| d@) == plumbed(self.rules(), *msg),
    {
        let mut destinations: Vec<String> = Vec::new();
        let mut i: usize = 0;
        proof {
            assert(self.rules().subrange(0, 0) =~= Seq::<RuleView>::empty());
            assert(destinations@.map_values(|d: String| d@) =~= Seq::<Seq<char>>::empty());
        }
        while i < self.rules.len()
            invariant
                i <= self.rules@.len(),
                destinations@.map_values(|d: String| d@) == matching_destinations(self.rules().subrange(0, i as int), *msg),
            decreases self.rules@.len() - i,
        {
            let ghost prefix = self.rules().subrange(0, i + 1);
            proof {
                assert(prefix.drop_last() =~= self.rules().subrange(0, i as int));
                assert(prefix.last() == self.rules@[i as int].view());
            }
            if self.matches(&self.rules[i], msg) {
                let ghost before = destinations@.map_values(|d: String| d@);
                destinations.push(self.rules[i].destination.clone());
                proof {
                    assert(destinations@.map_values(|d: String| d@) =~= before.push(self.rules@[i as int].destination@));
                }
            }
            i = i + 1;
        }
        proof {
            assert(self.rules().subrange(0, self.rules@.len() as int) =~= self.rules());
        }
        if destinations.len() == 0 {
            destinations.push(String::from_str("/proc/log"));
            proof {
                assert(destinations@.map_values(|d: String| d@) =~= seq!["/proc/log"@]);
            }
        }
        destinations
    }

    /// Adds the configured rules in order, stopping at the first pattern
    /// that does not compile (the rules before it stay added).
    pub fn load_from_config(&mut self, rules: &Vec<crate::config::PlumberRule>) -> (r: Result<(), PlumberError>)
        ensures
            final(self).wf(),
            r is Ok ==> final(self).rules() == loaded(old(self).rules(), configured(rules@)),
            r is Ok ==> forall|i: int| 0 <= i < rules@.len() ==> regex_compiles(#[trigger] rules@[i].pattern@),
            r is Err ==> exists|n: int| #![trigger rules@[n]] 0 <= n < rules@.len() && !regex_compiles(rules@[n].pattern@)
                && (forall|i: int| 0 <= i < n ==> regex_compiles(#[trigger] rules@[i].pattern@))
                && final(self).rules() == loaded(old(self).rules(), configured(rules@).subrange(0, n)),
    {
        proof {
            use_type_invariant(&*self);
        }
        let ghost start = self.rules();
        let mut i: usize = 0;
        proof {
            assert(configured(rules@).subrange(0, 0) =~= Seq::<RuleView>::empty());
        }
        while i < rules.len()
            invariant
                i <= rules@.len(),
                self.wf(),
                start == old(self).rules(),
                self.rules() == loaded(start, configured(rules@).subrange(0, i as int)),
                forall|k: int| 0 <= k < i ==> regex_compiles(#[trigger] rules@[k].pattern@),
            decreases rules@.len() - i,
        {
            let r = &rules[i];
            let ghost prefix = configured(rules@).subrange(0, i + 1);
            match self.add_rule(r.name.as_str(), r.pattern.as_str(), r.destination.as_str(), r.priority, copy_headers(&r.header_match)) {
                Ok(()) => {
                    proof {
                        assert(prefix.drop_last() =~= configured(rules@).subrange(0, i as int));
                        assert(prefix.last() == configured_rule(rules@[i as int]));
                    }
                }
                Err(e) => {
                    proof {
                        let n = i as int;
                        assert(!regex_compiles(rules@[n].pattern@));
                        assert(0 <= n < rules@.len() && !regex_compiles(rules@[n].pattern@)
                            && (forall|k: int| 0 <= k < n ==> regex_compiles(#[trigger] rules@[k].pattern@))
                            && self.rules() == loaded(start, configured(rules@).subrange(0, n)));
                    }
                    return Err(e);
                }
            }
            i = i + 1;
        }
        proof {
            assert(configured(rules@).subrange(0, rules@.len() as int) =~= configured(rules@));
        }
        Ok(())
    }

    /// `(name, destination, priority)` of every rule, in routing order.
    pub fn list_rules(&self) -> (r: Vec<(String, String, i32)>)
        ensures
            r@.len() == self.rules().len(),
            forall|i: int| 0 <= i < r@.len() ==> r@[i].0@ == self.rules()[i].name && r@[i].1@ == self.rules()[i].destination
                && r@[i].2 as int == self.rules()[i].priority,
    {
        let mut out: Vec<(String, String, i32)> = Vec::new();
        let mut i: usize = 0;
        while i < self.rules.len()
            invariant
                i <= self.rules@.len(),
                out@.len() == i,
                forall|k: int| 0 <= k < i ==> out@[k].0@ == self.rules()[k].name && out@[k].1@ == self.rules()[k].destination
                    && out@[k].2 as int == self.rules()[k].priority,
            decreases self.rules@.len() - i,
        {
            let r = &self.rules[i];
            out.push((r.name.clone(), r.destination.clone(), r.priority));
            i = i + 1;
        }
        out
    }
}

/// The rule a configured rule becomes.
pub open spec fn configured_rule(c: crate::config::PlumberRule) -> RuleView {
    new_rule(c.name@, c.pattern@, c.destination@, c.priority as int, match c.header_match { Some(h) => Some(header_view(h@)), None => None })
}

/// The rules configured, as rules.
pub open spec fn configured(cs: Seq<crate::config::PlumberRule>) -> Seq<RuleView> {
    cs.map_values(|c: crate::config::PlumberRule| configured_rule(c))
}

/// The rules after adding each of `added` in turn.
pub open spec fn loaded(rules: Seq<RuleView>, added: Seq<RuleView>) -> Seq<RuleView>
    decreases added.len(),
{
    if added.len() == 0 {
        rules
    } else {
        with_rule(loaded(rules, added.drop_last()), added.last())
    }
}

} // verus!
