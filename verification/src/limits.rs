//! What an embedder decides about a plugin's environment, and the limits it is held to.

use vstd::prelude::*;
use vstd::string::*;
use crate::display_list::{DisplayList, ImagePayload};
use crate::text::{append_decimal, decimal_chars};

verus! {

/// How often the clock of the turn budget advances, in nanoseconds.
pub const EPOCH_TICK_NS: u64 = 10_000_000;

/// The quotient rounded up, at least one.
pub open spec fn ticks_for(nanos: nat) -> nat {
    let ticks = (nanos + EPOCH_TICK_NS - 1) / (EPOCH_TICK_NS as int);
    if ticks < 1 {
        1
    } else {
        ticks as nat
    }
}

/// How many ticks a budget of this many nanoseconds spans, rounded up, at least one. The
/// longest budget there is spans `u64::MAX`.
pub open spec fn ticks_of(nanos: u128) -> u64 {
    if ticks_for(nanos as nat) <= u64::MAX {
        ticks_for(nanos as nat) as u64
    } else {
        u64::MAX
    }
}

/// How many ticks a budget of this many nanoseconds spans, rounded up, at least one.
pub fn budget_ticks(nanos: u128) -> (ticks: u64)
    ensures
        ticks == ticks_of(nanos),
{
    let tick: u128 = EPOCH_TICK_NS as u128;
    let whole: u128 = nanos / tick;
    let ticks: u128 = if nanos % tick != 0 {
        whole + 1
    } else {
        whole
    };
    if ticks < 1 {
        1
    } else if ticks <= u64::MAX as u128 {
        ticks as u64
    } else {
        u64::MAX
    }
}

/// A budget that is not exceeded is not cut short: its ticks span it, and one tick fewer
/// would not.
pub proof fn budgets_are_spanned(nanos: u128)
    ensures
        ticks_for(nanos as nat) * EPOCH_TICK_NS >= nanos,
        nanos > 0 ==> (ticks_for(nanos as nat) - 1) * EPOCH_TICK_NS < nanos,
        ticks_for(nanos as nat) >= 1,
        nanos <= u64::MAX * EPOCH_TICK_NS ==> ticks_of(nanos) == ticks_for(nanos as nat),
{
}

/// Caps on what a plugin may ship in one display list. A list over a cap stops the plugin.
#[derive(Clone, Copy, Debug, PartialEq, Eq, Structural)]
pub struct DisplayListLimits {
    /// Primitives per display list.
    pub max_primitives: usize,
    /// Bytes of new image payloads per display list.
    pub max_image_bytes: usize,
}

impl Default for DisplayListLimits {
    fn default() -> (limits: DisplayListLimits)
        ensures
            limits == (DisplayListLimits { max_primitives: 100_000, max_image_bytes: 67_108_864 }),
    {
        DisplayListLimits { max_primitives: 100_000, max_image_bytes: 67_108_864 }
    }
}

/// How many bytes some images have together.
pub open spec fn total_image_bytes(images: Seq<ImagePayload>) -> nat
    decreases images.len(),
{
    if images.len() == 0 {
        0
    } else {
        total_image_bytes(images.drop_last()) + images.last().bytes@.len()
    }
}

impl DisplayListLimits {
    /// Whether a list is within the caps.
    pub open spec fn allows(self, list: DisplayList) -> bool {
        list.primitives@.len() <= self.max_primitives && total_image_bytes(list.new_images@)
            <= self.max_image_bytes
    }

    /// Why a list over a cap is refused. The count of primitives is looked at first.
    pub open spec fn reason(self, list: DisplayList) -> Seq<char> {
        if list.primitives@.len() > self.max_primitives {
            "display list has "@ + decimal_chars(list.primitives@.len()) + " primitives, more than the "@
                + decimal_chars(self.max_primitives as nat) + " allowed"@
        } else {
            "display list ships "@ + decimal_chars(total_image_bytes(list.new_images@))
                + " bytes of images, more than the "@ + decimal_chars(self.max_image_bytes as nat)
                + " allowed"@
        }
    }

    /// Hold a list to the caps. The sizes of its images have to add up without overflow.
    pub fn check(&self, list: &DisplayList) -> (checked: Result<(), String>)
        requires
            total_image_bytes(list.new_images@) <= usize::MAX,
        ensures
            match checked {
                Ok(_) => self.allows(*list),
                Err(reason) => !self.allows(*list) && reason@ == self.reason(*list),
            },
    {
        if list.primitives.len() > self.max_primitives {
            let mut reason = "display list has ".to_owned();
            append_decimal(&mut reason, list.primitives.len() as u64);
            reason.append(" primitives, more than the ");
            append_decimal(&mut reason, self.max_primitives as u64);
            reason.append(" allowed");
            return Err(reason);
        }
        let image_bytes: usize = sum_image_bytes(&list.new_images);
        if image_bytes > self.max_image_bytes {
            let mut reason = "display list ships ".to_owned();
            append_decimal(&mut reason, image_bytes as u64);
            reason.append(" bytes of images, more than the ");
            append_decimal(&mut reason, self.max_image_bytes as u64);
            reason.append(" allowed");
            return Err(reason);
        }
        Ok(())
    }
}

proof fn lemma_fewer_images_fewer_bytes(images: Seq<ImagePayload>, n: int)
    requires
        0 <= n <= images.len(),
    ensures
        total_image_bytes(images.take(n)) <= total_image_bytes(images),
    decreases images.len() - n,
{
    if n < images.len() {
        lemma_fewer_images_fewer_bytes(images, n + 1);
        assert(images.take(n + 1).drop_last() =~= images.take(n));
    } else {
        assert(images.take(n) =~= images);
    }
}

fn sum_image_bytes(images: &Vec<ImagePayload>) -> (bytes: usize)
    requires
        total_image_bytes(images@) <= usize::MAX,
    ensures
        bytes == total_image_bytes(images@),
{
    let mut bytes: usize = 0;
    let mut i: usize = 0;
    while i < images.len()
        invariant
            i <= images.len(),
            total_image_bytes(images@) <= usize::MAX,
            bytes == total_image_bytes(images@.take(i as int)),
        decreases images.len() - i,
    {
        proof {
            assert(images@.take(i as int + 1).drop_last() =~= images@.take(i as int));
            lemma_fewer_images_fewer_bytes(images@, i as int + 1);
        }
        bytes = bytes + images[i].bytes.len();
        i += 1;
    }
    assert(images@.take(i as int) =~= images@);
    bytes
}

/// Everything an embedder decides about a plugin's environment, as far as it is data.
/// Times are in nanoseconds.
#[derive(Debug, PartialEq)]
pub struct PluginOptions {
    /// The plugin's own directory, mounted read-only at `/plugin` in the guest.
    pub plugin_dir: Option<String>,
    /// The most wall-clock time one guest turn may take. A guest that exceeds it traps and
    /// the instance stops.
    pub turn_budget_ns: u128,
    /// The most the host UI thread waits for an input query, and the most the guest may
    /// take answering one before it traps.
    pub input_query_budget_ns: u128,
    pub limits: DisplayListLimits,
    /// The most linear memory the guest may grow to.
    pub memory_limit: usize,
}

impl PluginOptions {
    /// The defaults: a second for a turn, 50 milliseconds for a query, 512 MiB of memory.
    pub fn new() -> (options: PluginOptions)
        ensures
            options.plugin_dir is None,
            options.turn_budget_ns == 1_000_000_000,
            options.input_query_budget_ns == 50_000_000,
            options.limits == (DisplayListLimits {
                max_primitives: 100_000,
                max_image_bytes: 67_108_864,
            }),
            options.memory_limit == 536_870_912,
    {
        PluginOptions {
            plugin_dir: None,
            turn_budget_ns: 1_000_000_000,
            input_query_budget_ns: 50_000_000,
            limits: DisplayListLimits::default(),
            memory_limit: 536_870_912,
        }
    }

    /// Mount `dir` read-only at `/plugin` in the guest.
    pub fn with_plugin_dir(self, dir: String) -> (options: PluginOptions)
        ensures
            options == (PluginOptions { plugin_dir: Some(dir), ..self }),
    {
        PluginOptions { plugin_dir: Some(dir), ..self }
    }

    pub fn with_turn_budget(self, budget_ns: u128) -> (options: PluginOptions)
        ensures
            options == (PluginOptions { turn_budget_ns: budget_ns, ..self }),
    {
        PluginOptions { turn_budget_ns: budget_ns, ..self }
    }

    pub fn with_input_query_budget(self, budget_ns: u128) -> (options: PluginOptions)
        ensures
            options == (PluginOptions { input_query_budget_ns: budget_ns, ..self }),
    {
        PluginOptions { input_query_budget_ns: budget_ns, ..self }
    }

    pub fn with_limits(self, limits: DisplayListLimits) -> (options: PluginOptions)
        ensures
            options == (PluginOptions { limits, ..self }),
    {
        PluginOptions { limits, ..self }
    }

    pub fn with_memory_limit(self, bytes: usize) -> (options: PluginOptions)
        ensures
            options == (PluginOptions { memory_limit: bytes, ..self }),
    {
        PluginOptions { memory_limit: bytes, ..self }
    }

    /// How many ticks a guest turn may take before it traps.
    pub fn turn_deadline_ticks(&self) -> (ticks: u64)
        ensures
            ticks == ticks_of(self.turn_budget_ns),
    {
        budget_ticks(self.turn_budget_ns)
    }

    /// How many ticks an input query may take before it traps.
    pub fn query_deadline_ticks(&self) -> (ticks: u64)
        ensures
            ticks == ticks_of(self.input_query_budget_ns),
    {
        budget_ticks(self.input_query_budget_ns)
    }
}

/// The bytes of the images of a list are counted together, each image once.
pub proof fn image_bytes_add_up(images: Seq<ImagePayload>, more: ImagePayload)
    ensures
        total_image_bytes(Seq::empty()) == 0,
        total_image_bytes(images.push(more)) == total_image_bytes(images) + more.bytes@.len(),
{
    assert(images.push(more).drop_last() =~= images);
}

/// A list is held to both caps, and may reach them: it is refused exactly where it has more
/// primitives than allowed, or more bytes of images. It is told which of the two, the
/// primitives first, with how many there are and how many are allowed.
pub proof fn lists_are_held_to_both_caps(limits: DisplayListLimits, list: DisplayList)
    ensures
        limits.allows(list) <==> !(list.primitives@.len() > limits.max_primitives) && !(
        total_image_bytes(list.new_images@) > limits.max_image_bytes),
        list.primitives@.len() > limits.max_primitives ==> limits.reason(list)
            == "display list has "@ + decimal_chars(list.primitives@.len())
            + " primitives, more than the "@ + decimal_chars(limits.max_primitives as nat)
            + " allowed"@,
        list.primitives@.len() <= limits.max_primitives ==> limits.reason(list)
            == "display list ships "@ + decimal_chars(total_image_bytes(list.new_images@))
            + " bytes of images, more than the "@ + decimal_chars(limits.max_image_bytes as nat)
            + " allowed"@,
{
}

/// A longer budget is never fewer ticks, and a millisecond counts as a whole tick of ten.
pub proof fn longer_budgets_are_longer(shorter: u128, longer: u128)
    requires
        shorter <= longer,
    ensures
        ticks_of(shorter) <= ticks_of(longer),
        0 < longer <= 10_000_000 ==> ticks_of(longer) == 1,
        10_000_000 < longer <= 20_000_000 ==> ticks_of(longer) == 2,
        ticks_of(0) == 1,
{
}

/// A tick is ten milliseconds: a budget of whole ticks spans just as many, and one that is a
/// little longer spans one more.
pub proof fn ticks_are_ten_milliseconds(ticks: nat, more: nat)
    requires
        1 <= ticks,
        1 <= more <= 10_000_000,
    ensures
        ticks_for(ticks * 10_000_000) == ticks,
        ticks_for(ticks * 10_000_000 + more) == ticks + 1,
        ticks_for(more) == 1,
        ticks_for(0) == 1,
{
}

} // verus!
