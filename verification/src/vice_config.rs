use vstd::prelude::*;
use vstd::string::StrSliceExecFns;

use crate::text::same_text;

verus! {

/// One argument of the emulator's command line with its values, as texts.
pub type ArgText = Seq<Seq<char>>;

/// Whether `arg` asks for an argument to be taken away: its first text
/// begins with an exclamation mark.
pub open spec fn removal(arg: ArgText) -> bool {
    arg.len() > 0 && arg[0].len() > 0 && arg[0][0] == '!'
}

/// Whether `s` begins with `c`.
pub open spec fn begins_with(s: Seq<char>, c: char) -> bool {
    s.len() > 0 && s[0] == c
}

/// The name of an argument without what may stand before it: one
/// exclamation mark, and after that one minus or plus sign.
pub open spec fn normalized_key(s: Seq<char>) -> Seq<char> {
    let without_bang = if begins_with(s, '!') {
        s.drop_first()
    } else {
        s
    };
    if begins_with(without_bang, '-') || begins_with(without_bang, '+') {
        without_bang.drop_first()
    } else {
        without_bang
    }
}

/// The key by which arguments are told apart: the normalized first text.
/// An argument without texts has none.
pub open spec fn key_of(arg: ArgText) -> Option<Seq<char>> {
    if arg.len() > 0 {
        Some(normalized_key(arg[0]))
    } else {
        None
    }
}

/// The arguments whose key is not `key`.
pub open spec fn other_than(key: Option<Seq<char>>) -> spec_fn(ArgText) -> bool {
    |arg: ArgText| key_of(arg) != key
}

/// `base` after one overriding argument: the arguments with the same key
/// leave, and the argument itself is appended unless it is a removal.
pub open spec fn merged_one(base: Seq<ArgText>, arg: ArgText) -> Seq<ArgText> {
    let kept = base.filter(other_than(key_of(arg)));
    if removal(arg) {
        kept
    } else {
        kept.push(arg)
    }
}

/// `base` after the overriding arguments, applied one after the other.
pub open spec fn merged(base: Seq<ArgText>, overrides: Seq<ArgText>) -> Seq<ArgText>
    decreases overrides.len(),
{
    if overrides.len() == 0 {
        base
    } else {
        merged_one(merged(base, overrides.drop_last()), overrides.last())
    }
}

/// `base` after each of `layers` was laid over it, one after the other.
pub open spec fn layered(base: Seq<ArgText>, layers: Seq<Seq<ArgText>>) -> Seq<ArgText>
    decreases layers.len(),
{
    if layers.len() == 0 {
        base
    } else {
        merged(layered(base, layers.drop_last()), layers.last())
    }
}

/// The arguments of each of `configs`.
pub open spec fn args_of(configs: Seq<ViceConfig>) -> Seq<Seq<ArgText>> {
    configs.map_values(|config: ViceConfig| config.args.deep_view())
}

/// Whether `inherits`, the list of profiles that a game's configuration
/// names, asks for the default configuration as the base: it does unless it
/// is there and empty.
pub open spec fn default_wanted(inherits: Option<Seq<Seq<char>>>) -> bool {
    match inherits {
        Some(profiles) => profiles.len() > 0,
        None => true,
    }
}

/// Whether `arg` is the argument that starts a program.
pub open spec fn autostart(arg: ArgText) -> bool {
    key_of(arg) == Some("autostart"@)
}

/// The arguments that go on the command line before the autostart ones.
pub open spec fn regular() -> spec_fn(ArgText) -> bool {
    |arg: ArgText| !removal(arg) && !autostart(arg)
}

/// The autostart arguments that go on the command line.
pub open spec fn trailing() -> spec_fn(ArgText) -> bool {
    |arg: ArgText| !removal(arg) && autostart(arg)
}

/// The command line for `args`: the texts of all arguments but the
/// removals, in order, those of the autostart arguments last.
pub open spec fn command_line(args: Seq<ArgText>) -> Seq<Seq<char>> {
    args.filter(regular()).flatten() + args.filter(trailing()).flatten()
}

/// `found` hands out the key `key`, or nothing where there is none.
pub open spec fn key_view(found: Option<&str>) -> Option<Seq<char>> {
    match found {
        Some(key) => Some(key@),
        None => None,
    }
}

/// The arguments for the emulator, each a list of texts: a name and its
/// values.
#[derive(Debug)]
pub struct ViceConfig {
    pub args: Vec<Vec<String>>,
}

impl Clone for ViceConfig {
    fn clone(&self) -> (copy: Self)
        ensures
            copy.args.deep_view() == self.args.deep_view(),
    {
        let mut args: Vec<Vec<String>> = Vec::new();
        let mut i: usize = 0;
        while i < self.args.len()
            invariant
                i <= self.args.len(),
                args.len() == i,
                forall|k: int| 0 <= k < i ==> args[k].deep_view() == self.args[k].deep_view(),
            decreases self.args.len() - i,
        {
            args.push(Self::copy_arg(&self.args[i]));
            i += 1;
        }
        assert(args.deep_view() =~= self.args.deep_view());
        Self { args }
    }
}

impl ViceConfig {
    pub fn new(args: Vec<Vec<String>>) -> (config: Self)
        ensures
            config.args == args,
    {
        Self { args }
    }

    /// Whether `arg` asks for an argument to be taken away.
    pub fn is_removal(arg: &Vec<String>) -> (is_removal: bool)
        ensures
            is_removal == removal(arg.deep_view()),
    {
        if arg.len() == 0 {
            return false;
        }
        let first = arg[0].as_str();
        assert(arg.deep_view()[0] == first@);
        first.unicode_len() > 0 && first.get_char(0) == '!'
    }

    /// The name of an argument without what may stand before it.
    pub fn normalize_key(s: &str) -> (key: &str)
        ensures
            key@ == normalized_key(s@),
    {
        let n = s.unicode_len();
        let mut from: usize = 0;
        if n > 0 && s.get_char(0) == '!' {
            from = 1;
        }
        let ghost without_bang = s@.subrange(from as int, n as int);
        assert(without_bang =~= if begins_with(s@, '!') {
            s@.drop_first()
        } else {
            s@
        });
        if from < n && (s.get_char(from) == '-' || s.get_char(from) == '+') {
            assert(without_bang[0] == s@[from as int]);
            from = from + 1;
            assert(s@.subrange(from as int, n as int) =~= without_bang.drop_first());
        } else {
            assert(from < n ==> without_bang[0] == s@[from as int]);
        }
        s.substring_char(from, n)
    }

    /// The key by which `arg` is told apart from other arguments.
    pub fn key(arg: &Vec<String>) -> (key: Option<&str>)
        ensures
            key_view(key) == key_of(arg.deep_view()),
    {
        if arg.len() == 0 {
            return None;
        }
        assert(arg.deep_view()[0] == arg[0]@);
        Some(Self::normalize_key(arg[0].as_str()))
    }

    /// Whether two keys are the same.
    fn same_key(a: Option<&str>, b: Option<&str>) -> (same: bool)
        ensures
            same == (key_view(a) == key_view(b)),
    {
        match (a, b) {
            (Some(x), Some(y)) => same_text(x, y),
            (None, None) => true,
            _ => false,
        }
    }

    /// Takes away the arguments with the key `key`.
    fn drop_key(args: &mut Vec<Vec<String>>, key: Option<&str>)
        ensures
            final(args).deep_view() == old(args).deep_view().filter(other_than(key_view(key))),
    {
        let ghost orig = args.deep_view();
        let ghost keep = other_than(key_view(key));
        let ghost mut read: int = 0;
        let mut i: usize = 0;
        proof {
            reveal(Seq::filter);
            assert(orig.subrange(0, 0) =~= Seq::<ArgText>::empty());
            assert(args.deep_view().subrange(0, args.len() as int) =~= orig);
        }
        while i < args.len()
            invariant
                i <= args.len(),
                0 <= read <= orig.len(),
                orig.len() - read == args.len() - i,
                keep == other_than(key_view(key)),
                args.deep_view().subrange(0, i as int) == orig.subrange(0, read).filter(keep),
                args.deep_view().subrange(i as int, args.len() as int) == orig.subrange(
                    read,
                    orig.len() as int,
                ),
            decreases args.len() - i,
        {
            let ghost before = args.deep_view();
            proof {
                reveal(Seq::filter);
                assert(before[i as int] == before.subrange(i as int, args.len() as int)[0]);
                assert(orig[read] == orig.subrange(read, orig.len() as int)[0]);
                assert(orig.subrange(0, read + 1).drop_last() =~= orig.subrange(0, read));
                assert(before[i as int] == args[i as int].deep_view());
            }
            if Self::same_key(Self::key(&args[i]), key) {
                args.remove(i);
                proof {
                    let after = args.deep_view();
                    assert(after =~= before.remove(i as int));
                    assert(after.subrange(0, i as int) =~= before.subrange(0, i as int));
                    assert(after.subrange(i as int, args.len() as int) =~= orig.subrange(
                        read + 1,
                        orig.len() as int,
                    )) by {
                        assert forall|k: int| i <= k < args.len() implies after[k] == orig[k - i
                            + read + 1] by {
                            assert(after[k] == before[k + 1]);
                            assert(before[k + 1] == before.subrange(
                                i as int,
                                before.len() as int,
                            )[k + 1 - i]);
                        }
                    }
                    read = read + 1;
                }
            } else {
                proof {
                    assert(before.subrange(0, i + 1) =~= before.subrange(0, i as int).push(
                        before[i as int],
                    ));
                    assert(before.subrange(i + 1, args.len() as int) =~= orig.subrange(
                        read + 1,
                        orig.len() as int,
                    )) by {
                        assert forall|k: int| i + 1 <= k < args.len() implies before[k] == orig[k
                            - i + read] by {
                            assert(before[k] == before.subrange(i as int, before.len() as int)[k
                                - i]);
                        }
                    }
                    read = read + 1;
                }
                i += 1;
            }
        }
        proof {
            assert(args.deep_view().subrange(0, i as int) =~= args.deep_view());
            assert(orig.subrange(0, read) =~= orig);
        }
    }

    /// A copy of `arg`.
    fn copy_arg(arg: &Vec<String>) -> (copy: Vec<String>)
        ensures
            copy.deep_view() == arg.deep_view(),
    {
        let mut copy: Vec<String> = Vec::new();
        let mut i: usize = 0;
        while i < arg.len()
            invariant
                i <= arg.len(),
                copy.len() == i,
                forall|k: int| 0 <= k < i ==> copy[k]@ == arg[k]@,
            decreases arg.len() - i,
        {
            copy.push(arg[i].clone());
            i += 1;
        }
        assert(copy.deep_view() =~= arg.deep_view());
        copy
    }

    /// Lays `other` over this configuration, argument by argument: each
    /// argument of `other` takes away the arguments here that have its key,
    /// and is appended itself unless it is a removal.
    pub fn merge(&mut self, other: &Self)
        ensures
            final(self).args.deep_view() == merged(
                old(self).args.deep_view(),
                other.args.deep_view(),
            ),
    {
        let ghost base = self.args.deep_view();
        let ghost overrides = other.args.deep_view();
        let mut j: usize = 0;
        assert(overrides.subrange(0, 0) =~= Seq::<ArgText>::empty());
        while j < other.args.len()
            invariant
                j <= other.args.len(),
                overrides == other.args.deep_view(),
                self.args.deep_view() == merged(base, overrides.subrange(0, j as int)),
            decreases other.args.len() - j,
        {
            let other_arg = &other.args[j];
            proof {
                assert(overrides.subrange(0, j + 1).drop_last() =~= overrides.subrange(
                    0,
                    j as int,
                ));
                assert(overrides.subrange(0, j + 1).last() == other_arg.deep_view());
            }
            let other_key = Self::key(other_arg);
            Self::drop_key(&mut self.args, other_key);
            if !Self::is_removal(other_arg) {
                let ghost kept = self.args.deep_view();
                self.args.push(Self::copy_arg(other_arg));
                assert(self.args.deep_view() =~= kept.push(other_arg.deep_view()));
            }
            j += 1;
        }
        assert(overrides.subrange(0, j as int) =~= overrides);
    }

    /// Whether a game's configuration that names the profiles `inherits`
    /// builds on the default configuration.
    pub fn wants_default(inherits: Option<&Vec<String>>) -> (wanted: bool)
        ensures
            wanted == default_wanted(
                match inherits {
                    Some(profiles) => Some(profiles.deep_view()),
                    None => None,
                },
            ),
    {
        match inherits {
            Some(profiles) => profiles.len() > 0,
            None => true,
        }
    }

    /// The configuration of a game: `base` with the profiles laid over it in
    /// order, and the game's own arguments over those.
    pub fn compose(base: ViceConfig, profiles: &Vec<ViceConfig>, own: &ViceConfig) -> (config:
        ViceConfig)
        ensures
            config.args.deep_view() == merged(
                layered(base.args.deep_view(), args_of(profiles@)),
                own.args.deep_view(),
            ),
    {
        let mut config = base;
        let mut i: usize = 0;
        assert(args_of(profiles@).subrange(0, 0) =~= Seq::<Seq<ArgText>>::empty());
        while i < profiles.len()
            invariant
                i <= profiles.len(),
                config.args.deep_view() == layered(
                    base.args.deep_view(),
                    args_of(profiles@).subrange(0, i as int),
                ),
            decreases profiles.len() - i,
        {
            proof {
                let layers = args_of(profiles@);
                assert(layers.subrange(0, i + 1).drop_last() =~= layers.subrange(0, i as int));
                assert(layers.subrange(0, i + 1).last() == profiles[i as int].args.deep_view());
            }
            config.merge(&profiles[i]);
            i += 1;
        }
        assert(args_of(profiles@).subrange(0, i as int) =~= args_of(profiles@));
        config.merge(own);
        config
    }

    /// Appends to `line` the texts of the regular arguments, or those of the
    /// autostart arguments where `last` is set.
    fn append_args(&self, last: bool, line: &mut Vec<String>)
        ensures
            final(line).deep_view() == old(line).deep_view() + self.args.deep_view().filter(
                if last {
                    trailing()
                } else {
                    regular()
                },
            ).flatten(),
    {
        let ghost wanted = if last {
            trailing()
        } else {
            regular()
        };
        let ghost args = self.args.deep_view();
        let ghost start = line.deep_view();
        let mut i: usize = 0;
        proof {
            reveal(Seq::filter);
            assert(args.subrange(0, 0) =~= Seq::<ArgText>::empty());
            assert(start + Seq::<ArgText>::empty().flatten() =~= start);
        }
        while i < self.args.len()
            invariant
                i <= self.args.len(),
                args == self.args.deep_view(),
                wanted == if last {
                    trailing()
                } else {
                    regular()
                },
                line.deep_view() == start + args.subrange(0, i as int).filter(wanted).flatten(),
            decreases self.args.len() - i,
        {
            let arg = &self.args[i];
            let ghost done = args.subrange(0, i as int).filter(wanted);
            proof {
                reveal(Seq::filter);
                assert(args.subrange(0, i + 1).drop_last() =~= args.subrange(0, i as int));
                assert(args.subrange(0, i + 1).last() == arg.deep_view());
            }
            let is_autostart = match Self::key(arg) {
                Some(key) => same_text(key, "autostart"),
                None => false,
            };
            if !Self::is_removal(arg) && is_autostart == last {
                let ghost before = line.deep_view();
                let mut k: usize = 0;
                while k < arg.len()
                    invariant
                        k <= arg.len(),
                        line.deep_view() == before + arg.deep_view().subrange(0, k as int),
                    decreases arg.len() - k,
                {
                    let ghost so_far = line.deep_view();
                    line.push(arg[k].clone());
                    proof {
                        assert(line.deep_view() =~= so_far.push(arg[k as int]@));
                        assert(arg.deep_view().subrange(0, k + 1) =~= arg.deep_view().subrange(
                            0,
                            k as int,
                        ).push(arg[k as int]@));
                    }
                    k += 1;
                }
                proof {
                    assert(arg.deep_view().subrange(0, k as int) =~= arg.deep_view());
                    done.lemma_flatten_push(arg.deep_view());
                    assert(line.deep_view() =~= start + done.push(arg.deep_view()).flatten());
                }
            }
            i += 1;
        }
        assert(args.subrange(0, i as int) =~= args);
    }

    /// The command line: the texts of all arguments but the removals, in
    /// order, those of the autostart arguments last.
    pub fn to_command_args(&self) -> (line: Vec<String>)
        ensures
            line.deep_view() == command_line(self.args.deep_view()),
    {
        let mut result: Vec<String> = Vec::new();
        assert(result.deep_view() =~= Seq::<Seq<char>>::empty());
        self.append_args(false, &mut result);
        self.append_args(true, &mut result);
        result
    }
}

} // verus!
