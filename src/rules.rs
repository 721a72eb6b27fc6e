use vstd::prelude::*;
use vstd::string::*;
use crate::nodes::{Block, Statement};

verus! {

/// The value of a rule property: text or an unsigned integer, nothing nested.
#[derive(Debug, PartialEq, Eq)]
pub enum RulePropertyValue {
    String(String),
    Usize(usize),
}

impl RulePropertyValue {
    pub fn duplicate(&self) -> (r: Self)
        ensures
            r == *self,
    {
        match self {
            RulePropertyValue::String(s) => RulePropertyValue::String(s.clone()),
            RulePropertyValue::Usize(n) => RulePropertyValue::Usize(*n),
        }
    }
}

/// Why a rule refused its configuration.
#[derive(Debug, PartialEq, Eq)]
pub enum RuleConfigurationError {
    /// A property that the rule does not know; holds the property's name.
    UnexpectedProperty(String),
    /// A property that must hold text holds something else; holds the property's name.
    StringExpected(String),
    /// A property that must hold an unsigned integer holds something else; holds the
    /// property's name.
    UsizeExpected(String),
}

/// The text that describes a configuration error.
pub open spec fn configuration_error_text(e: RuleConfigurationError) -> Seq<char> {
    match e {
        RuleConfigurationError::UnexpectedProperty(p) => "unexpected field '"@ + p@ + "'"@,
        RuleConfigurationError::StringExpected(p) => "string value expected for field '"@ + p@
            + "'"@,
        RuleConfigurationError::UsizeExpected(p) => "unsigned integer expected for field '"@ + p@
            + "'"@,
    }
}

impl RuleConfigurationError {
    pub fn message(&self) -> (r: String)
        ensures
            r@ == configuration_error_text(*self),
    {
        let (mut text, property) = match self {
            RuleConfigurationError::UnexpectedProperty(p) => (
                String::from_str("unexpected field '"),
                p,
            ),
            RuleConfigurationError::StringExpected(p) => (
                String::from_str("string value expected for field '"),
                p,
            ),
            RuleConfigurationError::UsizeExpected(p) => (
                String::from_str("unsigned integer expected for field '"),
                p,
            ),
        };
        text.append(property.as_str());
        text.append("'");
        text
    }
}

/// The names of a sequence of properties, in order.
pub open spec fn property_keys(entries: Seq<(String, RulePropertyValue)>) -> Seq<Seq<char>> {
    entries.map_values(|e: (String, RulePropertyValue)| e.0@)
}

/// A mapping from property names to values. Names are unique; entries keep the
/// order in which they were inserted.
pub struct RuleProperties {
    entries: Vec<(String, RulePropertyValue)>,
}

impl View for RuleProperties {
    type V = Seq<(String, RulePropertyValue)>;

    closed spec fn view(&self) -> Seq<(String, RulePropertyValue)> {
        self.entries@
    }
}

impl RuleProperties {
    /// No two entries share a name.
    pub open spec fn wf(&self) -> bool {
        property_keys(self@).no_duplicates()
    }

    pub fn new() -> (r: Self)
        ensures
            r.wf(),
            r@ == Seq::<(String, RulePropertyValue)>::empty(),
    {
        let r = RuleProperties { entries: Vec::new() };
        proof {
            assert(property_keys(r@) =~= Seq::<Seq<char>>::empty());
        }
        r
    }

    pub fn len(&self) -> (r: usize)
        ensures
            r == self@.len(),
    {
        self.entries.len()
    }

    pub fn is_empty(&self) -> (r: bool)
        ensures
            r == (self@.len() == 0),
    {
        self.entries.len() == 0
    }

    pub fn contains_key(&self, key: &str) -> (r: bool)
        ensures
            r == property_keys(self@).contains(key@),
    {
        let wanted = String::from_str(key);
        let mut i: usize = 0;
        while i < self.entries.len()
            invariant
                i <= self.entries@.len(),
                wanted@ == key@,
                forall|j: int| 0 <= j < i ==> property_keys(self@)[j] != key@,
            decreases self.entries@.len() - i,
        {
            if self.entries[i].0 == wanted {
                proof {
                    assert(property_keys(self@)[i as int] == key@);
                }
                return true;
            }
            i = i + 1;
        }
        false
    }

    /// Adds an entry where the name is new, and reports whether it did; a known
    /// name leaves the properties unchanged.
    pub fn insert(&mut self, key: String, value: RulePropertyValue) -> (added: bool)
        requires
            old(self).wf(),
        ensures
            final(self).wf(),
            added == !property_keys(old(self)@).contains(key@),
            added ==> final(self)@ == old(self)@.push((key, value)),
            !added ==> final(self)@ == old(self)@,
    {
        if self.contains_key(key.as_str()) {
            return false;
        }
        let ghost k = key;
        let ghost before = self@;
        self.entries.push((key, value));
        proof {
            assert(self@ =~= before.push((k, value)));
            assert(property_keys(self@) =~= property_keys(before).push(k@));
        }
        true
    }

    pub fn into_entries(self) -> (r: Vec<(String, RulePropertyValue)>)
        ensures
            r@ == self@,
    {
        self.entries
    }

    /// The entry at a position, in insertion order.
    pub fn entry(&self, i: usize) -> (r: (&String, &RulePropertyValue))
        requires
            i < self@.len(),
        ensures
            *r.0 == self@[i as int].0,
            *r.1 == self@[i as int].1,
    {
        (&self.entries[i].0, &self.entries[i].1)
    }
}

/// A pass over a block that keeps the behaviour of the program, with the name and
/// the configuration by which documents refer to it.
pub trait Rule: Sized {
    /// The name of the rule.
    spec fn spec_name(&self) -> Seq<char>;

    /// The properties whose value differs from that of the default instance.
    spec fn spec_properties(&self) -> Seq<(String, RulePropertyValue)>;

    /// What `process` makes of a block.
    spec fn spec_process(&self, before: Block, after: Block) -> bool;

    /// The instance configured with the given properties, or why it refuses them.
    spec fn spec_configure(&self, properties: Seq<(String, RulePropertyValue)>) -> Result<
        Self,
        RuleConfigurationError,
    >;

    fn process(&self, block: &mut Block)
        ensures
            self.spec_process(*old(block), *final(block)),
    ;

    fn configure(&mut self, properties: RuleProperties) -> (r: Result<(), RuleConfigurationError>)
        ensures
            match old(self).spec_configure(properties@) {
                Ok(configured) => r is Ok && *final(self) == configured,
                Err(e) => r == Err::<(), RuleConfigurationError>(e) && *final(self) == *old(self),
            },
    ;

    fn get_name(&self) -> (r: &'static str)
        ensures
            r@ == self.spec_name(),
    ;

    fn serialize_to_properties(&self) -> (r: RuleProperties)
        ensures
            r@ == self.spec_properties(),
    ;
}

/// The name under which the empty-do removal is registered.
pub open spec fn remove_empty_do_name() -> Seq<char> {
    "remove_empty_do"@
}

/// Removes every `do ... end` statement whose block is empty.
#[derive(Debug, Clone, Copy, PartialEq, Eq)]
pub struct RemoveEmptyDo {}

impl Default for RemoveEmptyDo {
    fn default() -> (r: Self)
        ensures
            r == (RemoveEmptyDo {}),
    {
        RemoveEmptyDo {}
    }
}

impl Rule for RemoveEmptyDo {
    open spec fn spec_name(&self) -> Seq<char> {
        remove_empty_do_name()
    }

    open spec fn spec_properties(&self) -> Seq<(String, RulePropertyValue)> {
        Seq::empty()
    }

    open spec fn spec_process(&self, before: Block, after: Block) -> bool {
        after.spec_statements() == before.spec_statements().filter(
            |s: Statement| !s.is_empty_do(),
        )
    }

    open spec fn spec_configure(&self, properties: Seq<(String, RulePropertyValue)>) -> Result<
        Self,
        RuleConfigurationError,
    > {
        if properties.len() == 0 {
            Ok(*self)
        } else {
            Err(RuleConfigurationError::UnexpectedProperty(properties[0].0))
        }
    }

    fn process(&self, block: &mut Block) {
        let ghost keep = |s: Statement| !s.is_empty_do();
        let ghost all = block.spec_statements();
        let statements = block.mutate_statements();
        let mut i: usize = 0;
        let ghost mut j: int = 0;
        while i < statements.len()
            invariant
                0 <= j <= all.len(),
                keep == (|s: Statement| !s.is_empty_do()),
                statements@ == all.take(j).filter(keep) + all.skip(j),
                i == all.take(j).filter(keep).len(),
            decreases all.len() - j,
        {
            let ghost f = all.take(j).filter(keep);
            proof {
                assert(all.take(j + 1).drop_last() =~= all.take(j));
                assert(all.take(j + 1).last() == all[j]);
                reveal_with_fuel(Seq::filter, 1);
                assert(all.take(j + 1).filter(keep) == if keep(all[j]) {
                    f.push(all[j])
                } else {
                    f
                });
                assert(statements@[i as int] == all[j]);
            }
            if statements[i].check_empty_do() {
                statements.remove(i);
                proof {
                    assert(statements@ =~= f + all.skip(j + 1));
                }
            } else {
                proof {
                    assert(f + all.skip(j) =~= f.push(all[j]) + all.skip(j + 1));
                }
                i = i + 1;
            }
            proof {
                j = j + 1;
            }
        }
        proof {
            assert(all.take(j) =~= all) by {
                assert(all.skip(j).len() == 0);
            }
        }
    }

    fn configure(&mut self, properties: RuleProperties) -> (r: Result<(), RuleConfigurationError>) {
        if properties.is_empty() {
            Ok(())
        } else {
            let (key, _value) = properties.entry(0);
            Err(RuleConfigurationError::UnexpectedProperty(key.clone()))
        }
    }

    fn get_name(&self) -> (r: &'static str) {
        "remove_empty_do"
    }

    fn serialize_to_properties(&self) -> (r: RuleProperties) {
        RuleProperties::new()
    }
}

/// Every rule kind that the registry knows.
#[derive(Debug, Clone, Copy, PartialEq, Eq)]
pub enum RuleInstance {
    RemoveEmptyDo(RemoveEmptyDo),
}

impl Rule for RuleInstance {
    open spec fn spec_name(&self) -> Seq<char> {
        match self {
            RuleInstance::RemoveEmptyDo(rule) => rule.spec_name(),
        }
    }

    open spec fn spec_properties(&self) -> Seq<(String, RulePropertyValue)> {
        match self {
            RuleInstance::RemoveEmptyDo(rule) => rule.spec_properties(),
        }
    }

    open spec fn spec_process(&self, before: Block, after: Block) -> bool {
        match self {
            RuleInstance::RemoveEmptyDo(rule) => rule.spec_process(before, after),
        }
    }

    open spec fn spec_configure(&self, properties: Seq<(String, RulePropertyValue)>) -> Result<
        Self,
        RuleConfigurationError,
    > {
        match self {
            RuleInstance::RemoveEmptyDo(rule) => match rule.spec_configure(properties) {
                Ok(configured) => Ok(RuleInstance::RemoveEmptyDo(configured)),
                Err(e) => Err(e),
            },
        }
    }

    fn process(&self, block: &mut Block) {
        match self {
            RuleInstance::RemoveEmptyDo(rule) => rule.process(block),
        }
    }

    fn configure(&mut self, properties: RuleProperties) -> (r: Result<(), RuleConfigurationError>) {
        match self {
            RuleInstance::RemoveEmptyDo(rule) => rule.configure(properties),
        }
    }

    fn get_name(&self) -> (r: &'static str) {
        match self {
            RuleInstance::RemoveEmptyDo(rule) => rule.get_name(),
        }
    }

    fn serialize_to_properties(&self) -> (r: RuleProperties) {
        match self {
            RuleInstance::RemoveEmptyDo(rule) => rule.serialize_to_properties(),
        }
    }
}

/// The registry: the default instance of the rule kind registered under a name.
pub open spec fn registry_lookup(name: Seq<char>) -> Option<RuleInstance> {
    if name == remove_empty_do_name() {
        Some(RuleInstance::RemoveEmptyDo(RemoveEmptyDo {}))
    } else {
        None
    }
}

/// The text of the error for a name that the registry does not know.
pub open spec fn invalid_name_text(name: Seq<char>) -> Seq<char> {
    "invalid rule name: "@ + name
}

/// Looks a name up in the registry and builds the default instance of its rule kind.
pub fn rule_from_str(name: &str) -> (r: Result<RuleInstance, String>)
    ensures
        match registry_lookup(name@) {
            Some(rule) => r == Ok::<RuleInstance, String>(rule),
            None => r is Err && r->Err_0@ == invalid_name_text(name@),
        },
{
    let wanted = String::from_str(name);
    if wanted == String::from_str("remove_empty_do") {
        Ok(RuleInstance::RemoveEmptyDo(RemoveEmptyDo::default()))
    } else {
        let mut message = String::from_str("invalid rule name: ");
        message.append(name);
        Err(message)
    }
}

/// The rules applied when no configuration says otherwise, in order.
pub open spec fn default_rules() -> Seq<RuleInstance> {
    seq![RuleInstance::RemoveEmptyDo(RemoveEmptyDo {})]
}

/// The default pipeline. Each of its rules keeps the behaviour of the program.
pub fn get_default_rules() -> (r: Vec<RuleInstance>)
    ensures
        r@ == default_rules(),
{
    let mut rules: Vec<RuleInstance> = Vec::new();
    rules.push(RuleInstance::RemoveEmptyDo(RemoveEmptyDo::default()));
    proof {
        assert(rules@ =~= default_rules());
    }
    rules
}

/// The default pipeline holds at least one rule, and each of its rules is found in
/// the registry under its own name.
pub proof fn lemma_default_rules_registered()
    ensures
        default_rules().len() >= 1,
        forall|i: int|
            0 <= i < default_rules().len() ==> registry_lookup(#[trigger] default_rules()[i].spec_name())
                == Some(default_rules()[i]),
{
}

/// `after` is what applying each of `rules` in order, once, makes of `before`; `states`
/// holds the block before each rule and after the last.
pub open spec fn pipeline_steps(
    rules: Seq<RuleInstance>,
    states: Seq<Block>,
    before: Block,
    after: Block,
) -> bool {
    &&& states.len() == rules.len() + 1
    &&& states[0] == before
    &&& states.last() == after
    &&& forall|i: int| 0 <= i < rules.len() ==> #[trigger] rules[i].spec_process(states[i], states[i + 1])
}

/// Applies each rule, in order and once, to the same block; each sees the block as
/// the rules before it left it.
pub fn apply_rules(rules: &Vec<RuleInstance>, block: &mut Block)
    ensures
        exists|states: Seq<Block>| pipeline_steps(rules@, states, *old(block), *final(block)),
{
    let ghost mut states: Seq<Block> = seq![*block];
    let mut i: usize = 0;
    while i < rules.len()
        invariant
            i <= rules@.len(),
            states.len() == i + 1,
            states[0] == *old(block),
            states.last() == *block,
            forall|k: int| 0 <= k < i ==> #[trigger] rules@[k].spec_process(states[k], states[k + 1]),
        decreases rules@.len() - i,
    {
        rules[i].process(block);
        proof {
            let prev = states;
            states = states.push(*block);
            assert forall|k: int| 0 <= k < i + 1 implies #[trigger] rules@[k].spec_process(
                states[k],
                states[k + 1],
            ) by {
                if k < i {
                    assert(states[k] == prev[k] && states[k + 1] == prev[k + 1]);
                }
            }
        }
        i = i + 1;
    }
    assert(pipeline_steps(rules@, states, *old(block), *block));
}

} // verus!
