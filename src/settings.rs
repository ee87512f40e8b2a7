//! Per-channel settings: which channels the quiz is enabled in.
use vstd::prelude::*;

verus! {

/// The channels that the quiz is enabled in, in the order they were enabled.
pub struct Channel {
    pub enabled: Vec<u64>,
}

/// The settings that are kept across restarts.
pub struct Config {
    pub channel: Channel,
}

impl Default for Config {
    fn default() -> (r: Config)
        ensures
            r.channel.enabled@ == Seq::<u64>::empty(),
    {
        Config::new()
    }
}

impl Config {
    /// No channel enabled.
    pub fn new() -> (r: Config)
        ensures
            r.channel.enabled@ == Seq::<u64>::empty(),
    {
        Config { channel: Channel { enabled: Vec::new() } }
    }

    /// Whether the quiz is enabled in channel `id`.
    pub fn is_enabled(&self, id: u64) -> (r: bool)
        ensures
            r == self.channel.enabled@.contains(id),
    {
        let v = &self.channel.enabled;
        let mut i: usize = 0;
        while i < v.len()
            invariant
                v@ == self.channel.enabled@,
                0 <= i <= v@.len(),
                !v@.take(i as int).contains(id),
            decreases v@.len() - i,
        {
            if v[i] == id {
                assert(v@[i as int] == id);
                assert(v@.contains(id));
                return true;
            }
            assert(v@.take(i + 1) =~= v@.take(i as int).push(v@[i as int]));
            i = i + 1;
        }
        assert(v@.take(v@.len() as int) =~= v@);
        false
    }

    /// Enables the quiz in channel `id`; `false` if it already was.
    pub fn enable(&mut self, id: u64) -> (r: bool)
        ensures
            r == !old(self).channel.enabled@.contains(id),
            final(self).channel.enabled@ == if r {
                old(self).channel.enabled@.push(id)
            } else {
                old(self).channel.enabled@
            },
    {
        if self.is_enabled(id) {
            false
        } else {
            self.channel.enabled.push(id);
            true
        }
    }

    /// Disables the quiz in channel `id`.
    pub fn disable(&mut self, id: u64)
        ensures
            final(self).channel.enabled@ == old(self).channel.enabled@.filter(|c: u64| c != id),
    {
        let ghost pred = |c: u64| c != id;
        let mut kept: Vec<u64> = Vec::new();
        let mut i: usize = 0;
        while i < self.channel.enabled.len()
            invariant
                0 <= i <= self.channel.enabled@.len(),
                pred == (|c: u64| c != id),
                kept@ == self.channel.enabled@.take(i as int).filter(pred),
            decreases self.channel.enabled@.len() - i,
        {
            let c = self.channel.enabled[i];
            let ghost before = kept@;
            proof {
                let v = self.channel.enabled@;
                assert(v.take(i + 1) =~= v.take(i as int).push(c));
                v.take(i as int).lemma_filter_push(c, pred);
                assert(pred(c) == (c != id));
            }
            if c != id {
                kept.push(c);
                assert(kept@ == before.push(c));
            }
            i = i + 1;
        }
        assert(self.channel.enabled@.take(self.channel.enabled@.len() as int) =~= self.channel.enabled@);
        self.channel.enabled = kept;
        assert(self.channel.enabled@ == old(self).channel.enabled@.filter(pred));
    }
}

} // verus!
