//! The counter catalog: from the canonical English names of counters to the
//! localized names that form subscription paths.

use vstd::prelude::*;
use vstd::string::StringExecFns;
use crate::platform::Subscription;
use crate::session::{CounterHandle, CounterKey};

verus! {

/// The localized counterpart of `name`, looked for from pair `from` on. The
/// table is laid out in pairs: a canonical name at each even position and its
/// localized counterpart right after it. The first pair whose canonical name
/// is `name` decides; a trailing entry without counterpart is no pair.
pub open spec fn translation_from(table: Seq<Seq<char>>, name: Seq<char>, from: int) -> Option<
    Seq<char>,
>
    decreases table.len() - 2 * from,
{
    if from < 0 || 2 * from + 1 >= table.len() {
        None
    } else if table[2 * from] == name {
        Some(table[2 * from + 1])
    } else {
        translation_from(table, name, from + 1)
    }
}

/// The localized counterpart of `name` in the table, if the table has one.
pub open spec fn translation_of(table: Seq<Seq<char>>, name: Seq<char>) -> Option<Seq<char>> {
    translation_from(table, name, 0)
}

/// The path that subscribes `counter` of the instance `instance` of
/// `category`: a backslash, the category, the instance in round brackets, a
/// backslash, the counter.
pub open spec fn path_of(category: Seq<char>, instance: Seq<char>, counter: Seq<char>) -> Seq<
    char,
> {
    seq!['\\'] + category + seq!['('] + instance + seq![')', '\\'] + counter
}

/// The character of one decimal digit.
pub open spec fn digit_char(digit: int) -> char {
    if digit == 0 {
        '0'
    } else if digit == 1 {
        '1'
    } else if digit == 2 {
        '2'
    } else if digit == 3 {
        '3'
    } else if digit == 4 {
        '4'
    } else if digit == 5 {
        '5'
    } else if digit == 6 {
        '6'
    } else if digit == 7 {
        '7'
    } else if digit == 8 {
        '8'
    } else {
        '9'
    }
}

/// The decimal digits of `n`, most significant first, without leading zeros.
pub open spec fn decimal_digits(n: nat) -> Seq<char>
    decreases n,
{
    if n < 10 {
        seq![digit_char(n as int)]
    } else {
        decimal_digits(n / 10).push(digit_char((n % 10) as int))
    }
}

/// The name of the instance that stands for all processors together.
pub const TOTAL_INSTANCE: &'static str = "_Total";

/// The canonical name of the processor category.
pub const PROCESSOR_CATEGORY: &'static str = "Processor";

/// The canonical name of the busy-time counter.
pub const PROCESSOR_TIME_COUNTER: &'static str = "% Processor Time";

/// The name of the instance that stands for all processors together.
pub open spec fn total_instance() -> Seq<char> {
    TOTAL_INSTANCE@
}

/// The canonical name of the processor category.
pub open spec fn processor_category() -> Seq<char> {
    PROCESSOR_CATEGORY@
}

/// The canonical name of the busy-time counter.
pub open spec fn processor_time_counter() -> Seq<char> {
    PROCESSOR_TIME_COUNTER@
}

/// One counter to subscribe: the key it will be known under and its path.
#[derive(Debug)]
pub struct SubscriptionRequest {
    pub key: CounterKey,
    pub path: String,
}

/// `SubscriptionRequest` as plain values.
pub struct SubscriptionRequestView {
    pub key: CounterKey,
    pub path: Seq<char>,
}

impl View for SubscriptionRequest {
    type V = SubscriptionRequestView;

    open spec fn view(&self) -> SubscriptionRequestView {
        SubscriptionRequestView { key: self.key, path: self.path@ }
    }
}

/// The counters to subscribe on a machine with `cores` cores: the aggregate
/// first, then one per core in the order of their positions. Nothing is
/// subscribed unless the table translates both the category and the counter.
pub open spec fn plan_of(table: Seq<Seq<char>>, cores: nat) -> Seq<SubscriptionRequestView> {
    match (
        translation_of(table, processor_category()),
        translation_of(table, processor_time_counter()),
    ) {
        (Some(category), Some(counter)) => Seq::new(
            cores + 1,
            |i: int|
                if i == 0 {
                    SubscriptionRequestView {
                        key: CounterKey::Total,
                        path: path_of(category, total_instance(), counter),
                    }
                } else {
                    SubscriptionRequestView {
                        key: CounterKey::Core((i - 1) as usize),
                        path: path_of(category, decimal_digits((i - 1) as nat), counter),
                    }
                },
        ),
        _ => Seq::empty(),
    }
}

/// The outcomes of a plan: each request of the plan with the handle that the
/// platform gave for it, in the order of the plan. A request for which no
/// answer is at hand counts as refused.
pub open spec fn outcomes_of(
    plan: Seq<SubscriptionRequestView>,
    handles: Seq<Option<CounterHandle>>,
) -> Seq<Subscription> {
    Seq::new(
        plan.len(),
        |i: int|
            Subscription {
                key: plan[i].key,
                handle: if i < handles.len() {
                    handles[i]
                } else {
                    None
                },
            },
    )
}

/// Where the table lacks the processor category or the busy-time counter,
/// nothing is subscribed.
pub proof fn lemma_plan_needs_both_translations(table: Seq<Seq<char>>, cores: nat)
    ensures
        translation_of(table, processor_category()) is None ==> plan_of(table, cores).len() == 0,
        translation_of(table, processor_time_counter()) is None ==> plan_of(table, cores).len()
            == 0,
        translation_of(table, processor_category()) is Some && translation_of(
            table,
            processor_time_counter(),
        ) is Some ==> plan_of(table, cores).len() == cores + 1,
{
}

/// The translation table of the platform.
#[derive(Debug)]
pub struct Catalog {
    table: Vec<String>,
}

impl View for Catalog {
    type V = Seq<Seq<char>>;

    /// The entries of the table.
    closed spec fn view(&self) -> Seq<Seq<char>> {
        self.table@.map_values(|entry: String| entry@)
    }
}

impl Catalog {
    /// The catalog over a table of names, laid out in pairs of a canonical
    /// name and its localized counterpart.
    pub fn new(table: Vec<String>) -> (r: Catalog)
        ensures
            r@ == table@.map_values(|entry: String| entry@),
    {
        Catalog { table }
    }

    /// The localized counterpart of the canonical name `name`, or `None`
    /// where the table does not hold the name.
    pub fn translate(&self, name: &str) -> (r: Option<String>)
        ensures
            r is Some <==> translation_of(self@, name@) is Some,
            r matches Some(localized) ==> Some(localized@) == translation_of(self@, name@),
    {
        let wanted = name.to_owned();
        let pairs = self.table.len() / 2;
        let mut k: usize = 0;
        while k < pairs
            invariant
                k <= pairs,
                pairs == self.table.len() / 2,
                wanted@ == name@,
                translation_of(self@, name@) == translation_from(self@, name@, k as int),
            decreases pairs - k,
        {
            if self.table[2 * k] == wanted {
                return Some(self.table[2 * k + 1].clone());
            }
            k += 1;
        }
        None
    }
}

/// Forms the path that subscribes `counter` of the instance `instance` of
/// `category`.
pub fn counter_path(category: &str, instance: &str, counter: &str) -> (r: String)
    ensures
        r@ == path_of(category@, instance@, counter@),
{
    proof {
        reveal_strlit("\\");
        reveal_strlit("(");
        reveal_strlit(")\\");
    }
    let mut path = String::new();
    path.append("\\");
    path.append(category);
    path.append("(");
    path.append(instance);
    path.append(")\\");
    path.append(counter);
    path
}

/// The text of one decimal digit.
fn digit_text(digit: usize) -> (r: &'static str)
    requires
        digit < 10,
    ensures
        r@ == seq![digit_char(digit as int)],
{
    proof {
        reveal_strlit("0");
        reveal_strlit("1");
        reveal_strlit("2");
        reveal_strlit("3");
        reveal_strlit("4");
        reveal_strlit("5");
        reveal_strlit("6");
        reveal_strlit("7");
        reveal_strlit("8");
        reveal_strlit("9");
    }
    let text = if digit == 0 {
        "0"
    } else if digit == 1 {
        "1"
    } else if digit == 2 {
        "2"
    } else if digit == 3 {
        "3"
    } else if digit == 4 {
        "4"
    } else if digit == 5 {
        "5"
    } else if digit == 6 {
        "6"
    } else if digit == 7 {
        "7"
    } else if digit == 8 {
        "8"
    } else {
        "9"
    };
    text
}

/// Writes `n` in decimal, without leading zeros.
pub fn decimal(n: usize) -> (r: String)
    ensures
        r@ == decimal_digits(n as nat),
    decreases n,
{
    if n < 10 {
        digit_text(n).to_owned()
    } else {
        let mut text = decimal(n / 10);
        text.append(digit_text(n % 10));
        text
    }
}

/// The counters to subscribe on a machine with `cores` cores, each with the
/// path that the localized names of the catalog give it. The plan is empty
/// where the catalog cannot translate the processor category or the
/// busy-time counter: the engine then runs without processor usage.
pub fn subscription_plan(catalog: &Catalog, cores: usize) -> (r: Vec<SubscriptionRequest>)
    ensures
        r@.map_values(|request: SubscriptionRequest| request@) == plan_of(catalog@, cores as nat),
{
    let mut plan: Vec<SubscriptionRequest> = Vec::new();
    let category = match catalog.translate(PROCESSOR_CATEGORY) {
        Some(category) => category,
        None => {
            return plan;
        },
    };
    let counter = match catalog.translate(PROCESSOR_TIME_COUNTER) {
        Some(counter) => counter,
        None => {
            return plan;
        },
    };
    let ghost wanted = plan_of(catalog@, cores as nat);
    plan.push(
        SubscriptionRequest {
            key: CounterKey::Total,
            path: counter_path(category.as_str(), TOTAL_INSTANCE, counter.as_str()),
        },
    );
    let mut position: usize = 0;
    while position < cores
        invariant
            position <= cores,
            wanted == plan_of(catalog@, cores as nat),
            wanted.len() == cores + 1,
            Some(category@) == translation_of(catalog@, processor_category()),
            Some(counter@) == translation_of(catalog@, processor_time_counter()),
            plan@.len() == position + 1,
            forall|i: int| 0 <= i <= position ==> (#[trigger] plan@[i])@ == wanted[i],
        decreases cores - position,
    {
        let instance = decimal(position);
        plan.push(
            SubscriptionRequest {
                key: CounterKey::Core(position),
                path: counter_path(category.as_str(), instance.as_str(), counter.as_str()),
            },
        );
        position += 1;
    }
    plan
}

/// Pairs each request of a plan with the platform's answer to it: `handles`
/// holds the answers in the order of the plan, a handle where the
/// subscription succeeded and `None` where it was refused.
pub fn subscription_outcomes(
    plan: &Vec<SubscriptionRequest>,
    handles: &Vec<Option<CounterHandle>>,
) -> (r: Vec<Subscription>)
    ensures
        r@ == outcomes_of(plan@.map_values(|request: SubscriptionRequest| request@), handles@),
{
    let mut outcomes: Vec<Subscription> = Vec::new();
    let mut position: usize = 0;
    while position < plan.len()
        invariant
            position <= plan@.len(),
            outcomes@.len() == position,
            forall|i: int|
                0 <= i < position ==> (#[trigger] outcomes@[i]) == (Subscription {
                    key: plan@[i].key,
                    handle: if i < handles@.len() {
                        handles@[i]
                    } else {
                        None
                    },
                }),
        decreases plan@.len() - position,
    {
        let handle = if position < handles.len() {
            handles[position]
        } else {
            None
        };
        outcomes.push(Subscription { key: plan[position].key, handle });
        position += 1;
    }
    assert(outcomes@ =~= outcomes_of(
        plan@.map_values(|request: SubscriptionRequest| request@),
        handles@,
    ));
    outcomes
}

} // verus!
