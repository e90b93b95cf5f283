//! The registry: which gauges a bus message feeds, and from which bytes.

use crate::config::{Config, GaugeDataType, GaugeType};
use crate::gauge::dial::Dial;
use crate::gauge::textgauge::TextGauge;
use crate::gauge::{views, Colour, Digits, Gauge, SetValue, Shape, ShapeView};
use crate::geometry::{Point, Rect, Size};
use crate::scalar::Scalar;
use std::collections::HashMap;
use vstd::prelude::*;

verus! {

broadcast use vstd::std_specs::hash::group_hash_axioms;

/// A gauge bound to its slot: the message that feeds it, the byte at which
/// its slot starts, and how the slot is read.
#[derive(Clone, Debug, PartialEq, Eq)]
pub struct GaugeSetup {
    pub gauge: Gauge,
    pub frame_id: u32,
    pub slot_start: usize,
    pub data_type: GaugeDataType,
}

/// What is wrong with a configured gauge.
#[derive(Clone, Copy, Debug, PartialEq, Eq, Structural)]
pub enum Problem {
    /// Its slot index is zero; slots are counted from one.
    SlotIndex,
    /// It is a dial without a minimum or without a maximum.
    MissingRange,
    /// It is a dial without a list of indicators.
    MissingIndicators,
    /// It does not fit where it is to stand: a position that it draws at
    /// falls outside the 32-bit range of pixel positions.
    OutOfBounds,
}

/// The first gauge of a configuration that cannot be built, and why.
#[derive(Clone, Copy, Debug, PartialEq, Eq, Structural)]
pub struct ConfigError {
    /// The position of the gauge in the configuration.
    pub gauge: usize,
    pub problem: Problem,
}

/// The rectangle in which a configured gauge stands.
pub open spec fn spec_bounding(gauge: crate::config::Gauge) -> Rect {
    Rect {
        top_left: Point { x: gauge.point.x, y: gauge.point.y },
        size: Size { width: gauge.size.width, height: gauge.size.height },
    }
}

/// What is wrong with a configured gauge, if anything.
pub open spec fn spec_problem(gauge: crate::config::Gauge) -> Option<Problem> {
    if gauge.slot_id == 0 {
        Some(Problem::SlotIndex)
    } else {
        match gauge.gauge {
            GaugeType::Dial => if gauge.min_value is None || gauge.max_value is None {
                Some(Problem::MissingRange)
            } else if gauge.indicators is None {
                Some(Problem::MissingIndicators)
            } else if !Dial::fits(spec_bounding(gauge)) {
                Some(Problem::OutOfBounds)
            } else {
                None
            },
            GaugeType::TextGauge => if !TextGauge::fits(spec_bounding(gauge)) {
                Some(Problem::OutOfBounds)
            } else {
                None
            },
        }
    }
}

impl GaugeSetup {
    /// The byte at which slot `slot_id`, counted from one, starts when
    /// every slot is `slot_size` bytes wide.
    pub open spec fn spec_slot_start(slot_id: u8, slot_size: u8) -> int {
        (slot_id - 1) * slot_size
    }

    /// The setup is the one that `gauge` asks for under `config`: bound to
    /// its message and slot, with a new gauge of its kind. A dial starts at
    /// its minimum, a text gauge at zero.
    pub open spec fn realises(&self, config: Config, gauge: crate::config::Gauge) -> bool {
        &&& self.frame_id == gauge.frame_id
        &&& self.slot_start == GaugeSetup::spec_slot_start(gauge.slot_id, config.slot_size)
        &&& self.data_type == gauge.data_type
        &&& match gauge.gauge {
            GaugeType::Dial => {
                &&& self.gauge matches Gauge::Dial(dial)
                &&& gauge.min_value matches Some(min)
                &&& gauge.max_value matches Some(max)
                &&& gauge.indicators matches Some(indicators)
                &&& dial.is_new(
                    gauge.title@,
                    min,
                    max,
                    min,
                    Digits::spec_from_count(gauge.digits),
                    spec_bounding(gauge),
                    indicators@,
                    Colour::spec_primary(config),
                )
            },
            GaugeType::TextGauge => {
                &&& self.gauge matches Gauge::TextGauge(textgauge)
                &&& textgauge.is_new(
                    gauge.title@,
                    gauge.unit@,
                    Scalar::Finite(0),
                    Digits::spec_from_count(gauge.digits),
                    spec_bounding(gauge),
                    Colour::spec_primary(config),
                )
            },
        }
    }

    /// Binds `gauge` to the message and the slot that `config` names, with
    /// slots of `slot_size` bytes.
    pub fn new(gauge: Gauge, config: &crate::config::Gauge, slot_size: u8) -> (setup: GaugeSetup)
        requires
            config.slot_id >= 1,
        ensures
            setup.gauge == gauge,
            setup.frame_id == config.frame_id,
            setup.slot_start == GaugeSetup::spec_slot_start(config.slot_id, slot_size),
            setup.data_type == config.data_type,
    {
        let slot: usize = (config.slot_id - 1) as usize;
        assert(slot * slot_size <= 254 * 255) by (nonlinear_arith)
            requires
                slot <= 254,
                slot_size <= 255,
        ;
        GaugeSetup {
            gauge,
            frame_id: config.frame_id,
            slot_start: slot * (slot_size as usize),
            data_type: config.data_type,
        }
    }

    /// The setup after a message: where the message is the one that feeds
    /// the gauge and the slot lies within the payload, the gauge shows the
    /// decoded value; otherwise nothing changes.
    pub open spec fn after_message(self, id: u32, payload: Seq<u8>) -> GaugeSetup {
        if self.frame_id == id {
            match self.data_type.spec_value(payload, self.slot_start as int) {
                Ok(value) => GaugeSetup { gauge: self.gauge.with_value(value), ..self },
                Err(_) => self,
            }
        } else {
            self
        }
    }
}

/// Where in `setups` the gauges of message `id` stand, in ascending order.
pub open spec fn positions(setups: Seq<GaugeSetup>, id: u32) -> Seq<usize>
    decreases setups.len(),
{
    if setups.len() == 0 {
        Seq::empty()
    } else if setups.last().frame_id == id {
        positions(setups.drop_last(), id).push((setups.len() - 1) as usize)
    } else {
        positions(setups.drop_last(), id)
    }
}

/// Of the setups at `places`, how many have a slot that does not lie within
/// `payload`.
pub open spec fn failures(setups: Seq<GaugeSetup>, places: Seq<usize>, payload: Seq<u8>) -> nat
    decreases places.len(),
{
    if places.len() == 0 {
        0
    } else {
        let setup = setups[places.last() as int];
        let rest = failures(setups, places.drop_last(), payload);
        if setup.data_type.spec_value(payload, setup.slot_start as int) is Err {
            rest + 1
        } else {
            rest
        }
    }
}

/// The gauges of a cluster in the order of their configuration, with an
/// index from message identifier to the gauges that the message feeds.
pub struct Registry {
    setups: Vec<GaugeSetup>,
    index: HashMap<u32, Vec<usize>>,
}

impl View for Registry {
    type V = Seq<GaugeSetup>;

    closed spec fn view(&self) -> Seq<GaugeSetup> {
        self.setups@
    }
}

impl Registry {
    /// Every gauge is well-formed, and the index lists for each message
    /// exactly the gauges that it feeds.
    pub closed spec fn wf(&self) -> bool {
        &&& forall|i: int| 0 <= i < self.setups@.len() ==> (#[trigger] self.setups@[i]).gauge.wf()
        &&& indexes(self.index@, self.setups@)
    }

    /// Builds the gauges of a configuration, in its order, and binds each
    /// to its message and slot. Fails on the first gauge that cannot be
    /// built.
    pub fn build(config: &Config) -> (built: Result<Registry, ConfigError>)
        ensures
            match built {
                Ok(registry) => {
                    &&& registry.wf()
                    &&& registry@.len() == config.gauges@.len()
                    &&& forall|i: int|
                        0 <= i < config.gauges@.len() ==> {
                            &&& spec_problem(#[trigger] config.gauges@[i]) is None
                            &&& registry@[i].realises(*config, config.gauges@[i])
                        }
                },
                Err(error) => {
                    &&& error.gauge < config.gauges@.len()
                    &&& spec_problem(config.gauges@[error.gauge as int]) == Some(error.problem)
                    &&& forall|i: int|
                        0 <= i < error.gauge ==> spec_problem(#[trigger] config.gauges@[i]) is None
                },
            },
    {
        let mut setups: Vec<GaugeSetup> = Vec::new();
        let mut i: usize = 0;
        while i < config.gauges.len()
            invariant
                0 <= i <= config.gauges@.len(),
                setups@.len() == i,
                forall|j: int|
                    0 <= j < i ==> {
                        &&& spec_problem(#[trigger] config.gauges@[j]) is None
                        &&& setups@[j].realises(*config, config.gauges@[j])
                        &&& setups@[j].gauge.wf()
                    },
            decreases config.gauges@.len() - i,
        {
            let gauge_config = &config.gauges[i];
            let gauge = match Registry::build_gauge(gauge_config, config) {
                Ok(gauge) => gauge,
                Err(problem) => {
                    return Err(ConfigError { gauge: i, problem });
                },
            };
            setups.push(GaugeSetup::new(gauge, gauge_config, config.slot_size));
            i += 1;
        }
        let index = Registry::index_of(&setups);
        assert forall|j: int| 0 <= j < setups@.len() implies (#[trigger] setups@[j]).gauge.wf() by {
            assert(spec_problem(config.gauges@[j]) is None);
        }
        Ok(Registry { setups, index })
    }

    /// Builds the gauge that `gauge_config` asks for.
    fn build_gauge(gauge_config: &crate::config::Gauge, config: &Config) -> (built: Result<
        Gauge,
        Problem,
    >)
        ensures
            match built {
                Ok(gauge) => {
                    &&& spec_problem(*gauge_config) is None
                    &&& gauge.wf()
                    &&& forall|setup: GaugeSetup|
                        setup.gauge == gauge && setup.frame_id == gauge_config.frame_id
                            && setup.slot_start == GaugeSetup::spec_slot_start(
                            gauge_config.slot_id,
                            config.slot_size,
                        ) && setup.data_type == gauge_config.data_type
                            ==> #[trigger] setup.realises(*config, *gauge_config)
                },
                Err(problem) => spec_problem(*gauge_config) == Some(problem),
            },
    {
        if gauge_config.slot_id == 0 {
            return Err(Problem::SlotIndex);
        }
        let digits = Digits::from_count(gauge_config.digits);
        let bounding = Rect {
            top_left: Point { x: gauge_config.point.x, y: gauge_config.point.y },
            size: Size { width: gauge_config.size.width, height: gauge_config.size.height },
        };
        match gauge_config.gauge {
            GaugeType::Dial => {
                let (min, max) = match (gauge_config.min_value, gauge_config.max_value) {
                    (Some(min), Some(max)) => (min, max),
                    _ => {
                        return Err(Problem::MissingRange);
                    },
                };
                let indicators = match &gauge_config.indicators {
                    Some(indicators) => indicators,
                    None => {
                        return Err(Problem::MissingIndicators);
                    },
                };
                if !Dial::check_fits(&bounding) {
                    return Err(Problem::OutOfBounds);
                }
                Ok(
                    Gauge::Dial(
                        Dial::new(
                            gauge_config.title.as_str(),
                            min,
                            max,
                            min,
                            digits,
                            bounding,
                            indicators.as_slice(),
                            config,
                        ),
                    ),
                )
            },
            GaugeType::TextGauge => {
                if !TextGauge::check_fits(&bounding) {
                    return Err(Problem::OutOfBounds);
                }
                Ok(
                    Gauge::TextGauge(
                        TextGauge::new(
                            gauge_config.title.as_str(),
                            gauge_config.unit.as_str(),
                            Scalar::Finite(0),
                            digits,
                            bounding,
                            config,
                        ),
                    ),
                )
            },
        }
    }

    /// The index of `setups`.
    fn index_of(setups: &Vec<GaugeSetup>) -> (index: HashMap<u32, Vec<usize>>)
        ensures
            indexes(index@, setups@),
    {
        let mut index: HashMap<u32, Vec<usize>> = HashMap::new();
        let mut i: usize = 0;
        while i < setups.len()
            invariant
                0 <= i <= setups@.len(),
                indexes(index@, setups@.take(i as int)),
            decreases setups@.len() - i,
        {
            let id = setups[i].frame_id;
            let mut places = match index.remove(&id) {
                Some(places) => places,
                None => Vec::new(),
            };
            places.push(i);
            index.insert(id, places);
            proof {
                assert(setups@.take(i + 1).drop_last() =~= setups@.take(i as int));
                assert forall|other: u32|
                    {
                        &&& index@.contains_key(other) <==> (#[trigger] positions(
                            setups@.take(i + 1),
                            other,
                        )).len() > 0
                        &&& index@.contains_key(other) ==> index@[other]@ == positions(
                            setups@.take(i + 1),
                            other,
                        )
                    } by {
                    assert(positions(setups@.take(i as int), other).len() >= 0);
                }
            }
            i += 1;
        }
        assert(setups@.take(i as int) =~= setups@);
        index
    }

    /// The number of gauges.
    pub fn len(&self) -> (count: usize)
        ensures
            count == self@.len(),
    {
        self.setups.len()
    }

    /// The setup at position `i`.
    pub fn setup(&self, i: usize) -> (setup: &GaugeSetup)
        requires
            i < self@.len(),
        ensures
            *setup == self@[i as int],
    {
        &self.setups[i]
    }

    /// What the cluster draws: the shapes of every gauge, in the order of
    /// the gauges.
    pub fn draw(&self) -> (shapes: Vec<Shape>)
        requires
            self.wf(),
        ensures
            views(shapes@) == spec_draw(self@),
    {
        let mut shapes: Vec<Shape> = Vec::new();
        let mut i: usize = 0;
        while i < self.setups.len()
            invariant
                0 <= i <= self.setups@.len(),
                self.wf(),
                views(shapes@) == spec_draw(self.setups@.take(i as int)),
            decreases self.setups@.len() - i,
        {
            let mut part = self.setups[i].gauge.draw();
            let ghost before = shapes@;
            let ghost added = part@;
            shapes.append(&mut part);
            proof {
                assert(views(shapes@) =~= views(before) + views(added));
                assert(self.setups@.take(i + 1).drop_last() =~= self.setups@.take(i as int));
            }
            i += 1;
        }
        assert(self.setups@.take(i as int) =~= self.setups@);
        shapes
    }

    /// The positions of the gauges that message `id` feeds, in the order of
    /// their configuration, or `None` where it feeds none.
    pub fn lookup(&self, id: u32) -> (found: Option<&Vec<usize>>)
        requires
            self.wf(),
        ensures
            match found {
                Some(places) => places@ == positions(self@, id) && places@.len() > 0,
                None => positions(self@, id).len() == 0,
            },
    {
        self.index.get(&id)
    }

    /// Hands a message to the gauges that it feeds: each of them whose slot
    /// lies within the payload shows the decoded value afterwards. Returns
    /// `None` where the message feeds no gauge, and otherwise the number of
    /// its gauges whose slot lies outside the payload; those keep their
    /// value.
    pub fn dispatch(&mut self, id: u32, payload: &[u8]) -> (failed: Option<usize>)
        requires
            old(self).wf(),
        ensures
            final(self).wf(),
            final(self)@ == old(self)@.map_values(
                |setup: GaugeSetup| setup.after_message(id, payload@),
            ),
            failed == if positions(old(self)@, id).len() == 0 {
                None
            } else {
                Some(failures(old(self)@, positions(old(self)@, id), payload@) as usize)
            },
    {
        let places = match self.index.get(&id) {
            Some(places) => places,
            None => {
                proof {
                    assert(self.setups@.len() == self.setups.len());
                    lemma_positions(self.setups@, id);
                    assert(self@ =~= old(self)@.map_values(
                        |setup: GaugeSetup| setup.after_message(id, payload@),
                    ));
                }
                return None;
            },
        };
        proof {
            assert(self.setups@.len() == self.setups.len());
            lemma_positions(self.setups@, id);
        }
        let mut failed: usize = 0;
        let mut k: usize = 0;
        while k < places.len()
            invariant
                0 <= k <= places.len(),
                places@ == positions(old(self)@, id),
                self.index == old(self).index,
                self.setups@.len() == old(self)@.len(),
                forall|i: int| 0 <= i < self.setups@.len() ==> (#[trigger] self.setups@[i]).gauge.wf(),
                forall|i: int|
                    0 <= i < self.setups@.len() ==> (#[trigger] self.setups@[i]).frame_id == old(
                        self,
                    )@[i].frame_id,
                forall|i: int|
                    0 <= i < self.setups@.len() ==> #[trigger] self.setups@[i] == if k
                        < places@.len() && i >= places@[k as int] {
                        old(self)@[i]
                    } else {
                        old(self)@[i].after_message(id, payload@)
                    },
                failed == failures(old(self)@, places@.take(k as int), payload@),
                failed <= k,
            decreases places.len() - k,
        {
            proof {
                assert(self.setups@.len() == self.setups.len());
                lemma_positions(old(self)@, id);
            }
            let place = places[k];
            let decoded = self.setups[place].data_type.value(payload, self.setups[place].slot_start);
            match decoded {
                Ok(value) => {
                    self.setups[place].gauge.set_value(value);
                },
                Err(_) => {
                    failed += 1;
                },
            }
            proof {
                assert(places@.take(k + 1).drop_last() =~= places@.take(k as int));
            }
            k += 1;
        }
        proof {
            assert(places@.take(k as int) =~= places@);
            assert(self@ =~= old(self)@.map_values(
                |setup: GaugeSetup| setup.after_message(id, payload@),
            ));
            assert forall|other: u32| #[trigger]
                positions(self.setups@, other) == positions(old(self)@, other) by {
                lemma_positions_follow_ids(self.setups@, old(self)@, other);
            }
        }
        Some(failed)
    }
}

/// What a list of gauges draws: what each of them draws, one gauge after
/// the other.
pub open spec fn spec_draw(setups: Seq<GaugeSetup>) -> Seq<ShapeView>
    decreases setups.len(),
{
    if setups.len() == 0 {
        Seq::empty()
    } else {
        spec_draw(setups.drop_last()) + setups.last().gauge.spec_draw()
    }
}

/// Whether `index` lists for each message exactly the gauges of `setups`
/// that it feeds.
pub open spec fn indexes(index: Map<u32, Vec<usize>>, setups: Seq<GaugeSetup>) -> bool {
    forall|id: u32|
        {
            &&& index.contains_key(id) <==> (#[trigger] positions(setups, id)).len() > 0
            &&& index.contains_key(id) ==> index[id]@ == positions(setups, id)
        }
}

/// The positions of a message's gauges are just the places where its
/// gauges stand, each once and in ascending order.
pub proof fn lemma_positions(setups: Seq<GaugeSetup>, id: u32)
    requires
        setups.len() <= usize::MAX,
    ensures
        forall|k: int|
            0 <= k < positions(setups, id).len() ==> {
                &&& (#[trigger] positions(setups, id)[k]) < setups.len()
                &&& setups[positions(setups, id)[k] as int].frame_id == id
            },
        forall|j: int, k: int|
            0 <= j < k < positions(setups, id).len() ==> positions(setups, id)[j] < positions(
                setups,
                id,
            )[k],
        forall|i: int|
            0 <= i < setups.len() && (#[trigger] setups[i]).frame_id == id ==> exists|k: int|
                0 <= k < positions(setups, id).len() && positions(setups, id)[k] == i,
    decreases setups.len(),
{
    if setups.len() > 0 {
        let front = setups.drop_last();
        lemma_positions(front, id);
        let here = positions(setups, id);
        let before = positions(front, id);
        assert forall|i: int|
            0 <= i < setups.len() && (#[trigger] setups[i]).frame_id == id implies exists|k: int|
            0 <= k < here.len() && here[k] == i by {
            if i < setups.len() - 1 {
                assert(front[i].frame_id == id);
                let k = choose|k: int| 0 <= k < before.len() && before[k] == i;
                assert(here[k] == i);
            } else {
                assert(here == before.push(i as usize));
                assert(here[here.len() - 1] == i);
            }
        }
    }
}

/// The positions of a message's gauges depend on nothing but the message
/// identifiers of the setups.
pub proof fn lemma_positions_follow_ids(a: Seq<GaugeSetup>, b: Seq<GaugeSetup>, id: u32)
    requires
        a.len() == b.len(),
        forall|i: int| 0 <= i < a.len() ==> (#[trigger] a[i]).frame_id == b[i].frame_id,
    ensures
        positions(a, id) == positions(b, id),
    decreases a.len(),
{
    if a.len() > 0 {
        lemma_positions_follow_ids(a.drop_last(), b.drop_last(), id);
    }
}

} // verus!
