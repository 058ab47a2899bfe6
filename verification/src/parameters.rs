//! The values that the engine's parameters of an enumerated kind can take.

use vstd::prelude::*;

verus! {

/// What the model is trained to fit.
#[derive(Copy, Clone, Debug, PartialEq, Eq, Hash, PartialOrd, Ord, Structural)]
pub enum Objective {
    Regression,
    RegressionL1,
    Huber,
    Fair,
    Poisson,
    Quantile,
    Mape,
    Gamma,
    Tweedie,
    Binary,
    Multiclass,
    Multiclassova,
    CrossEntropy,
    CrossEntropyLambda,
    Lambdarank,
    RankXendcg,
    Custom,
}

impl Default for Objective {
    fn default() -> (objective: Self)
        ensures
            objective == Objective::Regression,
    {
        Objective::Regression
    }
}

/// The boosting method.
#[derive(Copy, Clone, Debug, PartialEq, Eq, Hash, PartialOrd, Ord, Structural)]
pub enum Boosting {
    Gbdt,
    Rf,
    Dart,
    Goss,
}

impl Default for Boosting {
    fn default() -> (boosting: Self)
        ensures
            boosting == Boosting::Gbdt,
    {
        Boosting::Gbdt
    }
}

/// How the data of an iteration is sampled.
#[derive(Copy, Clone, Debug, PartialEq, Eq, Hash, PartialOrd, Ord, Structural)]
pub enum DataSampleStrategy {
    Bagging,
    Goss,
}

impl Default for DataSampleStrategy {
    fn default() -> (strategy: Self)
        ensures
            strategy == DataSampleStrategy::Bagging,
    {
        DataSampleStrategy::Bagging
    }
}

/// How the learning of a tree is spread over machines.
#[derive(Copy, Clone, Debug, PartialEq, Eq, Hash, PartialOrd, Ord, Structural)]
pub enum TreeLearner {
    Serial,
    Feature,
    Data,
    Voting,
}

impl Default for TreeLearner {
    fn default() -> (learner: Self)
        ensures
            learner == TreeLearner::Serial,
    {
        TreeLearner::Serial
    }
}

/// The device that learns the trees.
#[derive(Copy, Clone, Debug, PartialEq, Eq, Hash, PartialOrd, Ord, Structural)]
pub enum DeviceType {
    Cpu,
    Gpu,
    Cuda,
}

impl Default for DeviceType {
    fn default() -> (device: Self)
        ensures
            device == DeviceType::Cpu,
    {
        DeviceType::Cpu
    }
}

/// A measure by which a model is evaluated.
#[derive(Copy, Clone, Debug, PartialEq, Eq, Hash, PartialOrd, Ord, Structural)]
pub enum Metric {
    L1,
    L2,
    Rmse,
    Quantile,
    Mape,
    Huber,
    Fair,
    Poisson,
    Gamma,
    GammaDeviance,
    Tweedie,
    Ndcg,
    /// The mean average precision, which the engine calls `map`.
    MeanAveragePrecision,
    Auc,
    AveragePrecision,
    BinaryLogloss,
    BinaryError,
    AucMu,
    MultiLogloss,
    MultiError,
    CrossEntropy,
    CrossEntropyLambda,
    KullbackLeibler,
}

impl Metric {
    /// The measure is an error or a loss: the lower, the better the model. The
    /// other measures are the ranking and precision scores and the areas under
    /// a curve.
    pub open spec fn lower_is_better(self) -> bool {
        !(self is Ndcg || self is MeanAveragePrecision || self is Auc || self is AveragePrecision || self is AucMu)
    }

    /// Tells whether a lower value of the measure means a better model.
    pub fn is_lower_is_better(self) -> (lower: bool)
        ensures
            lower == self.lower_is_better(),
    {
        match self {
            Metric::L1 => true,
            Metric::L2 => true,
            Metric::Rmse => true,
            Metric::Quantile => true,
            Metric::Mape => true,
            Metric::Huber => true,
            Metric::Fair => true,
            Metric::Poisson => true,
            Metric::Gamma => true,
            Metric::GammaDeviance => true,
            Metric::Tweedie => true,
            Metric::Ndcg => false,
            Metric::MeanAveragePrecision => false,
            Metric::Auc => false,
            Metric::AveragePrecision => false,
            Metric::BinaryLogloss => true,
            Metric::BinaryError => true,
            Metric::AucMu => false,
            Metric::MultiLogloss => true,
            Metric::MultiError => true,
            Metric::CrossEntropy => true,
            Metric::CrossEntropyLambda => true,
            Metric::KullbackLeibler => true,
        }
    }
}

/// How much the engine reports of what it does.
#[derive(Copy, Clone, Debug, PartialEq, Eq, Hash, PartialOrd, Ord, Structural)]
pub enum Verbosity {
    Fatal,
    Error,
    Info,
    Debug,
}

impl Verbosity {
    /// The number by which the engine knows this verbosity.
    pub open spec fn level_spec(self) -> int {
        match self {
            Verbosity::Fatal => -1,
            Verbosity::Error => 0,
            Verbosity::Info => 1,
            Verbosity::Debug => 2,
        }
    }

    /// The number by which the engine knows this verbosity.
    pub fn level(self) -> (level: i64)
        ensures
            level == self.level_spec(),
    {
        match self {
            Verbosity::Fatal => -1,
            Verbosity::Error => 0,
            Verbosity::Info => 1,
            Verbosity::Debug => 2,
        }
    }
}

} // verus!

verus! {

/// `String::push_str` appends `string` to the end of `text`.
pub assume_specification[ String::push_str ](text: &mut String, string: &str)
    ensures
        final(text)@ == old(text)@ + string@,
;

/// `parts`, one after the other, with `separator` between each two.
pub open spec fn joined(parts: Seq<Seq<char>>, separator: Seq<char>) -> Seq<char>
    decreases parts.len(),
{
    if parts.len() == 0 {
        Seq::empty()
    } else if parts.len() == 1 {
        parts[0]
    } else {
        joined(parts.drop_last(), separator) + separator + parts.last()
    }
}

/// The value of a parameter as the engine reads it: one text, or a list of
/// values.
#[derive(Debug)]
pub enum ParameterText {
    /// A value that is written as it stands.
    Text(String),
    /// Values that are written one after the other.
    List(Vec<ParameterText>),
}

impl ParameterText {
    /// What the engine reads: a text as it stands; a list as its values with a
    /// comma between each two, or as `None` if it is empty.
    pub open spec fn text(self) -> Seq<char>
        decreases self,
    {
        match self {
            ParameterText::Text(text) => text@,
            ParameterText::List(items) => if items@.len() == 0 {
                "None"@
            } else {
                joined(Self::texts(items, items@.len()), ","@)
            },
        }
    }

    /// What the engine reads of each of the first `count` values of `items`.
    pub open spec fn texts(items: Vec<ParameterText>, count: nat) -> Seq<Seq<char>>
        decreases items, count,
    {
        if count == 0 || count > items@.len() {
            Seq::empty()
        } else {
            Self::texts(items, (count - 1) as nat).push(items@[count - 1].text())
        }
    }

    /// What the engine reads of this value.
    #[verifier::loop_isolation(false)]
    pub fn to_text(&self) -> (written: String)
        ensures
            written@ == self.text(),
        decreases self,
    {
        match self {
            ParameterText::Text(text) => text.clone(),
            ParameterText::List(items) => {
                if items.len() == 0 {
                    return "None".to_owned();
                }
                proof {
                    broadcast use vstd::std_specs::vec::axiom_vec_index_decreases;

                    assert(Self::texts(*items, 1) =~= seq![items@[0].text()]) by {
                        reveal_with_fuel(ParameterText::texts, 2);
                    }
                }
                let mut text = items[0].to_text();
                let mut index: usize = 1;
                while index < items.len()
                    invariant
                        1 <= index <= items@.len(),
                        text@ == joined(Self::texts(*items, index as nat), ","@),
                    decreases items@.len() - index,
                {
                    proof {
                        broadcast use vstd::std_specs::vec::axiom_vec_index_decreases;

                        let before = Self::texts(*items, index as nat);
                        let after = Self::texts(*items, (index + 1) as nat);
                        assert(after.drop_last() =~= before);
                    }
                    let item = items[index].to_text();
                    text.push_str(",");
                    text.push_str(item.as_str());
                    index += 1;
                }
                text
            },
        }
    }
}

/// The parameters of a call to the engine, each a name and a value, in the
/// order in which they were given.
#[derive(Debug)]
pub struct Parameters(pub Vec<(String, ParameterText)>);

impl Parameters {
    /// What the engine reads of a parameter: its name, `=` and its value.
    pub open spec fn entry_text(entry: (String, ParameterText)) -> Seq<char> {
        entry.0@ + "="@ + entry.1.text()
    }

    /// What the engine reads of each parameter.
    pub open spec fn entry_texts(self) -> Seq<Seq<char>> {
        self.0@.map_values(|entry: (String, ParameterText)| Self::entry_text(entry))
    }

    /// What the engine reads: the parameters in their order, with a space
    /// between each two.
    pub open spec fn text(self) -> Seq<char> {
        joined(self.entry_texts(), " "@)
    }

    /// No parameter.
    pub fn new() -> (parameters: Self)
        ensures
            parameters.0@.len() == 0,
    {
        Parameters(Vec::new())
    }

    /// Adds the parameter `key` with the value `value` after those that are there.
    pub fn push(&mut self, key: String, value: ParameterText)
        ensures
            final(self).0@ == old(self).0@.push((key, value)),
    {
        self.0.push((key, value));
    }

    /// What the engine reads of these parameters.
    pub fn to_text(&self) -> (written: String)
        ensures
            written@ == self.text(),
    {
        let ghost parts = self.entry_texts();
        let mut text = String::new();
        let mut index: usize = 0;
        while index < self.0.len()
            invariant
                index <= self.0@.len(),
                parts == self.entry_texts(),
                text@ == joined(parts.take(index as int), " "@),
            decreases self.0@.len() - index,
        {
            let entry = &self.0[index];
            let value = entry.1.to_text();
            proof {
                let before = parts.take(index as int);
                let after = parts.take(index + 1);
                assert(after.drop_last() =~= before);
            }
            if index > 0 {
                text.push_str(" ");
            }
            text.push_str(entry.0.as_str());
            text.push_str("=");
            text.push_str(value.as_str());
            index += 1;
        }
        proof {
            assert(parts.take(index as int) =~= parts);
        }
        text
    }
}

impl Default for Parameters {
    /// No parameter.
    fn default() -> (parameters: Self)
        ensures
            parameters.0@.len() == 0,
    {
        Parameters::new()
    }
}

} // verus!
