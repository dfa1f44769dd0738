//! The single-layer decode benchmark: its command line, what it sets up, and
//! how its results are judged.
use vstd::prelude::*;
use vstd::string::*;

use crate::arith::div_ceil;
use crate::config::{
    FP8_BLOCK, GLM52_HEADS, GLM52_HIDDEN, GLM52_KV_A_OUT, GLM52_KV_LORA_RANK,
    GLM52_MLA_BYTES_PER_TOKEN, GLM52_PAGE_SIZE, GLM52_QK_HEAD_DIM, GLM52_QK_NOPE_HEAD_DIM,
    GLM52_QK_ROPE_HEAD_DIM, GLM52_Q_LORA_RANK, GLM52_SPARSE_TOPK, GLM52_V_HEAD_DIM,
};
use crate::text::{first_position, parse_u64, parse_usize, same_text, trim};

verus! {

/// What is measured: the context lengths, the iterations of each, and the
/// attention split count where the device's own is not wanted.
#[derive(Clone, Debug)]
pub struct BenchArgs {
    pub contexts: Vec<usize>,
    pub iters: u64,
    pub sm_parts: Option<usize>,
}

/// Why a command line is refused.
#[derive(Clone, Debug)]
pub enum BenchArgsError {
    /// The flag is the last argument.
    MissingValue { flag: String },
    /// A value, or a piece of one, is no number.
    InvalidNumber { text: String },
    /// No flag of this program.
    UnknownFlag { flag: String },
    /// Nothing is to be measured.
    NothingToMeasure,
}

/// The view of a parse's outcome.
pub enum BenchOutcome {
    Measure { contexts: Seq<usize>, iters: u64, sm_parts: Option<usize> },
    MissingValue { flag: Seq<char> },
    InvalidNumber { text: Seq<char> },
    UnknownFlag { flag: Seq<char> },
    NothingToMeasure,
}

/// The settings collected so far.
pub struct BenchSettings {
    pub contexts: Seq<usize>,
    pub iters: u64,
    pub sm_parts: Option<usize>,
}

/// The settings of an empty command line.
pub open spec fn default_settings() -> BenchSettings {
    BenchSettings { contexts: seq![512usize, 2048usize], iters: 64, sm_parts: None }
}

/// The numbers of a comma-separated list, with white space around them, or
/// the first piece that is none.
pub open spec fn number_list(pieces: Seq<Seq<char>>) -> Result<Seq<usize>, Seq<char>>
    decreases pieces.len(),
{
    if pieces.len() == 0 {
        Ok(Seq::empty())
    } else {
        match number_list(pieces.drop_last()) {
            Err(text) => Err(text),
            Ok(numbers) => {
                let text = crate::text::trimmed(pieces.last());
                match crate::text::unsigned_value(text, usize::MAX as nat) {
                    Some(n) => Ok(numbers.push(n as usize)),
                    None => Err(text),
                }
            },
        }
    }
}

/// The settings after a flag took a value, or the text that is no number.
pub open spec fn with_value(s: BenchSettings, flag: Seq<char>, value: Seq<char>) -> Result<
    BenchSettings,
    Seq<char>,
> {
    if flag == "--contexts"@ {
        match number_list(crate::text::split(value, ',')) {
            Ok(contexts) => Ok(BenchSettings { contexts, ..s }),
            Err(text) => Err(text),
        }
    } else if flag == "--iters"@ {
        match crate::text::unsigned_value(value, u64::MAX as nat) {
            Some(n) => Ok(BenchSettings { iters: n as u64, ..s }),
            None => Err(value),
        }
    } else {
        match crate::text::unsigned_value(value, usize::MAX as nat) {
            Some(n) => Ok(BenchSettings { sm_parts: Some(n as usize), ..s }),
            None => Err(value),
        }
    }
}

/// Whether an argument is one of the flags.
pub open spec fn is_flag(arg: Seq<char>) -> bool {
    arg == "--contexts"@ || arg == "--iters"@ || arg == "--sm-parts"@
}

/// What a command line asks for, read from argument `at` on.
pub open spec fn bench_outcome(args: Seq<Seq<char>>, at: int, s: BenchSettings) -> BenchOutcome
    decreases args.len() - at,
{
    if at < 0 || at >= args.len() {
        if s.contexts.len() == 0 || s.iters == 0 {
            BenchOutcome::NothingToMeasure
        } else {
            BenchOutcome::Measure { contexts: s.contexts, iters: s.iters, sm_parts: s.sm_parts }
        }
    } else if !is_flag(args[at]) {
        BenchOutcome::UnknownFlag { flag: args[at] }
    } else if at + 1 >= args.len() {
        BenchOutcome::MissingValue { flag: args[at] }
    } else {
        match with_value(s, args[at], args[at + 1]) {
            Ok(next) => bench_outcome(args, at + 2, next),
            Err(text) => BenchOutcome::InvalidNumber { text },
        }
    }
}

impl BenchArgs {
    /// The view of the settings.
    pub open spec fn settings(self) -> BenchSettings {
        BenchSettings { contexts: self.contexts@, iters: self.iters, sm_parts: self.sm_parts }
    }
}

impl BenchArgsError {
    /// The view of a refusal.
    pub open spec fn outcome(self) -> BenchOutcome {
        match self {
            BenchArgsError::MissingValue { flag } => BenchOutcome::MissingValue { flag: flag@ },
            BenchArgsError::InvalidNumber { text } => BenchOutcome::InvalidNumber { text: text@ },
            BenchArgsError::UnknownFlag { flag } => BenchOutcome::UnknownFlag { flag: flag@ },
            BenchArgsError::NothingToMeasure => BenchOutcome::NothingToMeasure,
        }
    }

    /// The refusal in words.
    pub open spec fn wording(self) -> Seq<char> {
        match self {
            BenchArgsError::MissingValue { flag } => flag@ + " needs a value"@,
            BenchArgsError::InvalidNumber { text } => "invalid number: "@ + text@,
            BenchArgsError::UnknownFlag { flag } => "unknown flag `"@ + flag@
                + "` (supported: --contexts, --iters, --sm-parts)"@,
            BenchArgsError::NothingToMeasure =>
                "--contexts must be non-empty and --iters positive"@,
        }
    }

    /// The refusal in words.
    pub fn message(&self) -> (t: String)
        ensures
            t@ == self.wording(),
    {
        match self {
            BenchArgsError::MissingValue { flag } => {
                let mut t = String::from_str(flag.as_str());
                t.append(" needs a value");
                t
            },
            BenchArgsError::InvalidNumber { text } => {
                let mut t = String::from_str("invalid number: ");
                t.append(text.as_str());
                t
            },
            BenchArgsError::UnknownFlag { flag } => {
                let mut t = String::from_str("unknown flag `");
                t.append(flag.as_str());
                t.append("` (supported: --contexts, --iters, --sm-parts)");
                t
            },
            BenchArgsError::NothingToMeasure => String::from_str(
                "--contexts must be non-empty and --iters positive",
            ),
        }
    }
}

/// The outcome that a result of `parse_args` stands for.
pub open spec fn args_outcome(r: Result<BenchArgs, BenchArgsError>) -> BenchOutcome {
    match r {
        Ok(a) => BenchOutcome::Measure {
            contexts: a.contexts@,
            iters: a.iters,
            sm_parts: a.sm_parts,
        },
        Err(e) => e.outcome(),
    }
}

/// Reads a comma-separated list of numbers.
fn parse_list(value: &str) -> (r: Result<Vec<usize>, String>)
    ensures
        match r {
            Ok(numbers) => number_list(crate::text::split(value@, ',')) == Ok::<
                Seq<usize>,
                Seq<char>,
            >(numbers@),
            Err(text) => number_list(crate::text::split(value@, ',')) == Err::<
                Seq<usize>,
                Seq<char>,
            >(text@),
        },
{
    let mut numbers: Vec<usize> = Vec::new();
    let n: usize = value.unicode_len();
    let mut start: usize = 0;
    let ghost whole = crate::text::split(value@, ',');
    proof {
        assert(crate::text::rest_from(value@, 0) =~= value@);
        assert(Seq::<Seq<char>>::empty() + whole =~= whole);
    }
    let ghost mut seen: Seq<Seq<char>> = Seq::empty();
    loop
        invariant
            n == value@.len(),
            start <= n,
            whole == crate::text::split(value@, ','),
            whole == seen + crate::text::split(
                crate::text::rest_from(value@, start as int),
                ',',
            ),
            number_list(seen) == Ok::<Seq<usize>, Seq<char>>(numbers@),
        decreases n - start,
    {
        let rest = value.substring_char(start, n);
        let ghost tail = crate::text::rest_from(value@, start as int);
        assert(rest@ == tail);
        let at = first_position(rest, ',');
        let end: usize = match at {
            Some(i) => i,
            None => rest.unicode_len(),
        };
        let text = trim(rest.substring_char(0, end));
        let ghost piece = tail.subrange(0, end as int);
        proof {
            crate::text::lemma_split_first(tail, ',', end as int);
            if end == tail.len() {
                assert(piece =~= tail);
            }
            assert(crate::text::split(tail, ',')[0] == piece);
            assert(seen.push(piece).drop_last() =~= seen);
            assert(seen.push(piece).last() == piece);
        }
        match parse_usize(text) {
            Some(number) => {
                numbers.push(number);
                proof {
                    seen = seen.push(piece);
                }
            },
            None => {
                proof {
                    let others = whole.subrange(seen.len() as int + 1, whole.len() as int);
                    assert(whole =~= seen.push(piece) + others);
                    lemma_first_fault(seen.push(piece), others, text@);
                }
                return Err(String::from_str(text));
            },
        }
        match at {
            Some(i) => {
                proof {
                    assert(crate::text::rest_from(tail, i + 1) =~= crate::text::rest_from(
                        value@,
                        start + i + 1,
                    ));
                    assert(whole =~= seen + crate::text::split(
                        crate::text::rest_from(value@, start + i + 1),
                        ',',
                    ));
                }
                start = start + i + 1;
            },
            None => {
                assert(whole =~= seen);
                return Ok(numbers);
            },
        }
    }
}

proof fn lemma_first_fault(pieces: Seq<Seq<char>>, more: Seq<Seq<char>>, text: Seq<char>)
    requires
        number_list(pieces) == Err::<Seq<usize>, Seq<char>>(text),
    ensures
        number_list(pieces + more) == Err::<Seq<usize>, Seq<char>>(text),
    decreases more.len(),
{
    if more.len() == 0 {
        assert(pieces + more =~= pieces);
    } else {
        lemma_first_fault(pieces, more.drop_last(), text);
        assert((pieces + more).drop_last() =~= pieces + more.drop_last());
    }
}

/// Gives a flag its value.
fn set_value(args: &mut BenchArgs, flag: &str, value: &str) -> (r: Result<(), BenchArgsError>)
    ensures
        match r {
            Ok(_) => with_value(old(args).settings(), flag@, value@) == Ok::<
                BenchSettings,
                Seq<char>,
            >(final(args).settings()),
            Err(e) => match with_value(old(args).settings(), flag@, value@) {
                Ok(_) => false,
                Err(text) => e.outcome() == (BenchOutcome::InvalidNumber { text }),
            },
        },
{
    if same_text(flag, "--contexts") {
        match parse_list(value) {
            Ok(contexts) => {
                args.contexts = contexts;
                Ok(())
            },
            Err(text) => Err(BenchArgsError::InvalidNumber { text }),
        }
    } else if same_text(flag, "--iters") {
        match parse_u64(value) {
            Some(n) => {
                args.iters = n;
                Ok(())
            },
            None => Err(BenchArgsError::InvalidNumber { text: String::from_str(value) }),
        }
    } else {
        match parse_usize(value) {
            Some(n) => {
                args.sm_parts = Some(n);
                Ok(())
            },
            None => Err(BenchArgsError::InvalidNumber { text: String::from_str(value) }),
        }
    }
}

/// Reads the command line, without the program's own name.
pub fn parse_args(argv: &Vec<String>) -> (r: Result<BenchArgs, BenchArgsError>)
    ensures
        args_outcome(r) == bench_outcome(
            crate::load_args::words(argv@),
            0,
            default_settings(),
        ),
        r matches Ok(a) ==> a.contexts.len() > 0 && a.iters > 0 && argv.len() % 2 == 0,
        argv.len() == 0 ==> (r matches Ok(a) && a.contexts@ == seq![512usize, 2048usize] && a.iters
            == 64 && a.sm_parts is None),
{
    let mut args = BenchArgs { contexts: vec![512usize, 2048usize], iters: 64, sm_parts: None };
    assert(args.contexts@ =~= seq![512usize, 2048usize]);
    let mut i: usize = 0;
    let n: usize = argv.len();
    while i < n
        invariant
            n == argv.len(),
            i <= n,
            i % 2 == 0,
            n == 0 ==> args.settings() == default_settings(),
            bench_outcome(crate::load_args::words(argv@), 0, default_settings())
                == bench_outcome(
                crate::load_args::words(argv@),
                i as int,
                args.settings(),
            ),
        decreases n - i,
    {
        let flag = argv[i].as_str();
        assert(crate::load_args::words(argv@)[i as int] == flag@);
        if !(same_text(flag, "--contexts") || same_text(flag, "--iters") || same_text(
            flag,
            "--sm-parts",
        )) {
            return Err(BenchArgsError::UnknownFlag { flag: String::from_str(flag) });
        }
        if n - i < 2 {
            return Err(BenchArgsError::MissingValue { flag: String::from_str(flag) });
        }
        let value = argv[i + 1].as_str();
        assert(crate::load_args::words(argv@)[i + 1] == value@);
        match set_value(&mut args, flag, value) {
            Ok(_) => {},
            Err(e) => {
                return Err(e);
            },
        }
        i = i + 2;
    }
    if args.contexts.len() == 0 || args.iters == 0 {
        return Err(BenchArgsError::NothingToMeasure);
    }
    Ok(args)
}

/// Whether a flag stands at a flag's place from `at` on and behind it.
pub open spec fn flag_given(args: Seq<Seq<char>>, at: int, flag: Seq<char>) -> bool {
    exists|k: int|
        #![trigger args[k]]
        at <= k < args.len() && (k - at) % 2 == 0 && args[k] == flag
}

proof fn lemma_flags_differ()
    ensures
        "--contexts"@ != "--iters"@,
        "--contexts"@ != "--sm-parts"@,
        "--iters"@ != "--sm-parts"@,
{
    reveal_strlit("--contexts");
    reveal_strlit("--iters");
    reveal_strlit("--sm-parts");
    assert("--contexts"@[2] != "--iters"@[2]);
    assert("--contexts"@[2] != "--sm-parts"@[2]);
    assert("--iters"@[2] != "--sm-parts"@[2]);
}

/// An accepted command line is flags and values in turn. What is measured is
/// what the last value of each flag says, wherever it stands, and the setting
/// stays where the flag is not given.
pub proof fn the_last_value_of_a_flag_counts(
    args: Seq<Seq<char>>,
    at: int,
    s: BenchSettings,
    k: int,
)
    requires
        0 <= at <= args.len(),
        bench_outcome(args, at, s) is Measure,
        at <= k < args.len(),
        (k - at) % 2 == 0,
    ensures
        is_flag(args[k]),
        k + 1 < args.len(),
        args[k] == "--iters"@ && !flag_given(args, k + 2, "--iters"@)
            ==> crate::text::unsigned_value(args[k + 1], u64::MAX as nat) == Some(
            bench_outcome(args, at, s)->Measure_iters as nat,
        ),
        args[k] == "--sm-parts"@ && !flag_given(args, k + 2, "--sm-parts"@)
            ==> (bench_outcome(args, at, s)->Measure_sm_parts matches Some(parts)
            && crate::text::unsigned_value(args[k + 1], usize::MAX as nat) == Some(parts as nat)),
        args[k] == "--contexts"@ && !flag_given(args, k + 2, "--contexts"@) ==> number_list(
            crate::text::split(args[k + 1], ','),
        ) == Ok::<Seq<usize>, Seq<char>>(bench_outcome(args, at, s)->Measure_contexts),
    decreases args.len() - at,
{
    lemma_flags_differ();
    let next = with_value(s, args[at], args[at + 1])->Ok_0;
    if k == at {
        settings_not_given_stay(args, at + 2, next);
    } else {
        the_last_value_of_a_flag_counts(args, at + 2, next, k);
    }
}

/// A setting whose flag is not given stays.
pub proof fn settings_not_given_stay(args: Seq<Seq<char>>, at: int, s: BenchSettings)
    requires
        0 <= at <= args.len(),
        bench_outcome(args, at, s) is Measure,
    ensures
        !flag_given(args, at, "--iters"@) ==> bench_outcome(args, at, s)->Measure_iters == s.iters,
        !flag_given(args, at, "--sm-parts"@) ==> bench_outcome(args, at, s)->Measure_sm_parts
            == s.sm_parts,
        !flag_given(args, at, "--contexts"@) ==> bench_outcome(args, at, s)->Measure_contexts
            == s.contexts,
    decreases args.len() - at,
{
    lemma_flags_differ();
    if at < args.len() {
        let next = with_value(s, args[at], args[at + 1])->Ok_0;
        settings_not_given_stay(args, at + 2, next);
        assert((at - at) % 2 == 0);
        assert forall|flag: Seq<char>| #[trigger]
            flag_given(args, at + 2, flag) implies flag_given(args, at, flag) by {
            let k = choose|k: int|
                #![trigger args[k]]
                at + 2 <= k < args.len() && (k - (at + 2)) % 2 == 0 && args[k] == flag;
            assert(at <= k < args.len() && (k - at) % 2 == 0 && args[k] == flag);
        }
        assert(flag_given(args, at, args[at]));
    }
}

/// A list is read number by number: each piece without its white space.
pub proof fn a_list_is_read_piece_by_piece(pieces: Seq<Seq<char>>, i: int)
    requires
        number_list(pieces) is Ok,
        0 <= i < pieces.len(),
    ensures
        number_list(pieces)->Ok_0.len() == pieces.len(),
        crate::text::unsigned_value(crate::text::trimmed(pieces[i]), usize::MAX as nat) == Some(
            number_list(pieces)->Ok_0[i] as nat,
        ),
    decreases pieces.len(),
{
    let text = crate::text::trimmed(pieces.last());
    if pieces.len() == 1 {
        assert(number_list(pieces.drop_last()) == Ok::<Seq<usize>, Seq<char>>(Seq::empty()));
    } else if i < pieces.len() - 1 {
        a_list_is_read_piece_by_piece(pieces.drop_last(), i);
    } else {
        a_list_is_read_piece_by_piece(pieces.drop_last(), 0);
    }
}

/// What the benchmark refuses.
#[derive(Clone, Debug)]
pub enum Glm52BenchError {
    NoContext,
    /// The attention kernel does not take this split count.
    RejectedParts { parts: usize },
    UnknownProjection { which: String },
    /// The two forwards differ in this many of all elements.
    ScratchDiverges { mismatches: usize, total: usize },
}

/// One synthetic layer over a context: where the token stands, the pages of
/// the cache, the slots attended to, the attention split count, and the one
/// that the device picks by itself.
#[derive(Clone, Debug)]
pub struct Glm52MlaDecodeBench {
    pub position: usize,
    pub num_blocks: usize,
    pub cache_bytes: usize,
    pub topk: Vec<i32>,
    pub num_sm_parts: usize,
    pub default_sm_parts: usize,
}

/// The attended slots of a context: all of them up to the fixed list length,
/// filled up with `-1`.
pub open spec fn attended_slots(context_len: int) -> Seq<i32> {
    Seq::new(
        2048,
        |i: int|
            if i < context_len {
                i as i32
            } else {
                -1i32
            },
    )
}

/// The attended slots of a context.
pub fn attended_list(context_len: usize) -> (r: Vec<i32>)
    ensures
        r@ == attended_slots(context_len as int),
        r.len() == 2048,
        forall|i: int|
            0 <= i < 2048 ==> #[trigger] r@[i] as int == (if i < context_len {
                i
            } else {
                -1
            }),
{
    let mut list: Vec<i32> = Vec::new();
    let mut i: usize = 0;
    while i < GLM52_SPARSE_TOPK
        invariant
            i <= 2048,
            list.len() == i,
            forall|j: int|
                0 <= j < i ==> #[trigger] list@[j] == attended_slots(context_len as int)[j],
        decreases 2048 - i,
    {
        list.push(
            if i < context_len {
                i as i32
            } else {
                -1
            },
        );
        i = i + 1;
    }
    assert(list@ =~= attended_slots(context_len as int));
    list
}

impl Glm52MlaDecodeBench {
    /// The benchmark over a context, with the device's split count, which the
    /// attention kernel takes or not.
    pub fn new(context_len: usize, num_sm_parts: usize, accepted: bool) -> (r: Result<
        Self,
        Glm52BenchError,
    >)
        requires
            41_984 * crate::arith::ceil_div(context_len as int, 64) <= usize::MAX,
        ensures
            match r {
                Ok(b) => {
                    &&& context_len > 0 && accepted
                    &&& b.position == context_len - 1
                    &&& b.num_blocks == crate::arith::ceil_div(context_len as int, 64)
                    &&& b.cache_bytes == 41_984 * b.num_blocks
                    &&& b.topk@ == attended_slots(context_len as int)
                    &&& b.num_sm_parts == num_sm_parts
                    &&& b.default_sm_parts == num_sm_parts
                },
                Err(Glm52BenchError::NoContext) => context_len == 0,
                Err(Glm52BenchError::RejectedParts { parts }) => context_len > 0 && !accepted
                    && parts == num_sm_parts,
                Err(_) => false,
            },
    {
        if context_len == 0 {
            return Err(Glm52BenchError::NoContext);
        }
        if !accepted {
            return Err(Glm52BenchError::RejectedParts { parts: num_sm_parts });
        }
        let num_blocks: usize = div_ceil(context_len, GLM52_PAGE_SIZE);
        Ok(
            Glm52MlaDecodeBench {
                position: context_len - 1,
                num_blocks,
                cache_bytes: num_blocks * GLM52_PAGE_SIZE * GLM52_MLA_BYTES_PER_TOKEN,
                topk: attended_list(context_len),
                num_sm_parts,
                default_sm_parts: num_sm_parts,
            },
        )
    }

    /// The split count that the device picks by itself, whatever count the
    /// measurements use.
    pub fn default_num_sm_parts(&self) -> (r: usize)
        ensures
            r == self.default_sm_parts,
    {
        self.default_sm_parts
    }

    /// Sets the split count of later measurements, if the attention kernel
    /// takes it.
    pub fn set_num_sm_parts(&mut self, parts: usize, accepted: bool) -> (r: Result<
        (),
        Glm52BenchError,
    >)
        ensures
            final(self).default_sm_parts == old(self).default_sm_parts,
            match r {
                Ok(_) => {
                    &&& accepted
                    &&& *final(self) == (Glm52MlaDecodeBench { num_sm_parts: parts, ..*old(self) })
                },
                Err(e) => {
                    &&& !accepted
                    &&& e == (Glm52BenchError::RejectedParts { parts })
                    &&& *final(self) == *old(self)
                },
            },
    {
        if !accepted {
            return Err(Glm52BenchError::RejectedParts { parts });
        }
        self.num_sm_parts = parts;
        Ok(())
    }
}

/// The row length of the input of a projection measured alone.
pub fn projection_input_len(which: &str) -> (r: Result<usize, Glm52BenchError>)
    ensures
        match r {
            Ok(len) => {
                ||| which@ == "q_a"@ && len == 6144
                ||| which@ == "q_b"@ && len == 2048
                ||| which@ == "kv_a"@ && len == 6144
                ||| which@ == "o_proj"@ && len == 16_384
            },
            Err(Glm52BenchError::UnknownProjection { which: name }) => name@ == which@ && which@
                != "q_a"@ && which@ != "q_b"@ && which@ != "kv_a"@ && which@ != "o_proj"@,
            Err(_) => false,
        },
{
    if same_text(which, "q_a") || same_text(which, "kv_a") {
        Ok(GLM52_HIDDEN)
    } else if same_text(which, "q_b") {
        Ok(GLM52_Q_LORA_RANK)
    } else if same_text(which, "o_proj") {
        Ok(GLM52_HEADS * GLM52_V_HEAD_DIM)
    } else {
        Err(Glm52BenchError::UnknownProjection { which: String::from_str(which) })
    }
}

/// The split counts that are not the device's own.
pub open spec fn other_than(default_parts: usize) -> spec_fn(usize) -> bool {
    |p: usize| p != default_parts
}

/// The split counts that are tried: the fixed ladder without the device's own
/// count, and that one last.
pub open spec fn sweep(default_parts: usize) -> Seq<usize> {
    seq![1usize, 8usize, 16usize, 32usize, 64usize, 96usize].filter(
        other_than(default_parts),
    ).push(default_parts)
}

/// The split counts that are tried.
pub fn sweep_parts(default_parts: usize) -> (r: Vec<usize>)
    ensures
        r@ == sweep(default_parts),
        r@.last() == default_parts,
        r@.no_duplicates(),
        forall|p: usize|
            p == 1 || p == 8 || p == 16 || p == 32 || p == 64 || p == 96 ==> #[trigger] r@.contains(
                p,
            ),
        forall|i: int, j: int| 0 <= i < j < r.len() - 1 ==> #[trigger] r@[i] < #[trigger] r@[j],
{
    let ladder: Vec<usize> = vec![1usize, 8usize, 16usize, 32usize, 64usize, 96usize];
    let ghost keep = other_than(default_parts);
    let mut parts: Vec<usize> = Vec::new();
    let mut i: usize = 0;
    assert(ladder@.take(0).filter(keep) =~= Seq::empty()) by {
        reveal(Seq::filter);
    }
    while i < ladder.len()
        invariant
            i <= ladder.len(),
            keep == other_than(default_parts),
            parts@ == ladder@.take(i as int).filter(keep),
            ladder@ == seq![1usize, 8usize, 16usize, 32usize, 64usize, 96usize],
            forall|l: int|
                0 <= l < i && ladder@[l] != default_parts ==> parts@.contains(#[trigger] ladder@[l]),
            forall|k: int|
                0 <= k < parts.len() ==> #[trigger] parts@[k] != default_parts && i > 0 && parts@[k]
                    <= ladder@[i - 1],
            forall|k: int, j: int| 0 <= k < j < parts.len() ==> parts@[k] < parts@[j],
        decreases ladder.len() - i,
    {
        let p: usize = ladder[i];
        assert(ladder@.take(i + 1) =~= ladder@.take(i as int).push(p));
        assert(ladder@.take(i + 1).drop_last() =~= ladder@.take(i as int));
        assert(ladder@.take(i + 1).filter(keep) == if keep(p) {
            ladder@.take(i as int).filter(keep).push(p)
        } else {
            ladder@.take(i as int).filter(keep)
        }) by {
            reveal(Seq::filter);
        }
        let ghost before = parts@;
        if p != default_parts {
            parts.push(p);
        }
        proof {
            assert forall|l: int| 0 <= l < i + 1 && ladder@[l] != default_parts implies
                parts@.contains(#[trigger] ladder@[l]) by {
                if l < i {
                    let k = choose|k: int| 0 <= k < before.len() && before[k] == ladder@[l];
                    assert(parts@[k] == ladder@[l]);
                } else {
                    assert(parts@[parts@.len() - 1] == p);
                }
            }
        }
        i = i + 1;
    }
    assert(ladder@.take(i as int) =~= seq![1usize, 8usize, 16usize, 32usize, 64usize, 96usize]);
    let ghost kept = parts@;
    parts.push(default_parts);
    proof {
        assert forall|p: usize|
            p == 1 || p == 8 || p == 16 || p == 32 || p == 64 || p == 96 implies
            #[trigger] parts@.contains(p) by {
            if p == default_parts {
                assert(parts@[parts@.len() - 1] == p);
            } else {
                let l = choose|l: int| 0 <= l < ladder@.len() && ladder@[l] == p;
                assert(ladder@[0] == 1 && ladder@[1] == 8 && ladder@[2] == 16 && ladder@[3] == 32
                    && ladder@[4] == 64 && ladder@[5] == 96);
                assert(kept.contains(ladder@[l]));
                let k = choose|k: int| 0 <= k < kept.len() && kept[k] == p;
                assert(parts@[k] == p);
            }
        }
    }
    parts
}

/// In how many of the first `k` places two outputs differ.
pub open spec fn differences(expected: Seq<u16>, actual: Seq<u16>, k: int) -> int
    decreases k,
{
    if k <= 0 {
        0
    } else {
        differences(expected, actual, k - 1) + (if expected[k - 1] != actual[k - 1] {
            1int
        } else {
            0
        })
    }
}

/// Holds the bits of two forwards against each other, as far as both reach.
pub fn check_scratch_parity(expected: &Vec<u16>, actual: &Vec<u16>) -> (r: Result<
    (),
    Glm52BenchError,
>)
    ensures
        match r {
            Ok(_) => forall|i: int|
                0 <= i < expected.len() && i < actual.len() ==> #[trigger] expected@[i]
                    == actual@[i],
            Err(Glm52BenchError::ScratchDiverges { mismatches, total }) => {
                &&& mismatches > 0
                &&& mismatches == differences(
                    expected@,
                    actual@,
                    crate::arith::least(expected.len() as int, actual.len() as int),
                )
                &&& total == expected.len()
            },
            Err(_) => false,
        },
{
    let n: usize = if expected.len() <= actual.len() {
        expected.len()
    } else {
        actual.len()
    };
    let mut mismatches: usize = 0;
    let mut i: usize = 0;
    while i < n
        invariant
            i <= n,
            n <= expected.len(),
            n <= actual.len(),
            mismatches <= i,
            mismatches == differences(expected@, actual@, i as int),
            mismatches == 0 ==> forall|j: int|
                0 <= j < i ==> #[trigger] expected@[j] == actual@[j],
        decreases n - i,
    {
        if expected[i] != actual[i] {
            mismatches = mismatches + 1;
        }
        i = i + 1;
    }
    if mismatches == 0 {
        Ok(())
    } else {
        Err(Glm52BenchError::ScratchDiverges { mismatches, total: expected.len() })
    }
}

/// Two outputs differ in as many places as there are places whose elements
/// differ.
pub proof fn differences_are_places(expected: Seq<u16>, actual: Seq<u16>, k: int)
    requires
        0 <= k,
    ensures
        ({
            let places = Set::new(|i: int| 0 <= i < k && expected[i] != actual[i]);
            places.finite() && places.len() == differences(expected, actual, k)
        }),
    decreases k,
{
    let places = Set::new(|i: int| 0 <= i < k && expected[i] != actual[i]);
    if k == 0 {
        assert(places =~= Set::empty());
    } else {
        differences_are_places(expected, actual, k - 1);
        let fewer = Set::new(|i: int| 0 <= i < k - 1 && expected[i] != actual[i]);
        if expected[k - 1] != actual[k - 1] {
            assert(places =~= fewer.insert(k - 1));
        } else {
            assert(places =~= fewer);
        }
    }
}

/// The bytes of a norm vector of ones, in little-endian bfloat16.
pub fn bf16_ones_bytes(len: usize) -> (r: Vec<u8>)
    requires
        2 * len <= usize::MAX,
    ensures
        r.len() == 2 * len,
        forall|i: int|
            0 <= i < r.len() ==> #[trigger] r@[i] == (if i % 2 == 0 {
                0x80u8
            } else {
                0x3fu8
            }),
{
    let mut bytes: Vec<u8> = Vec::new();
    let mut i: usize = 0;
    while i < len
        invariant
            i <= len,
            2 * len <= usize::MAX,
            bytes.len() == 2 * i,
            forall|j: int|
                0 <= j < bytes.len() ==> #[trigger] bytes@[j] == (if j % 2 == 0 {
                    0x80u8
                } else {
                    0x3fu8
                }),
        decreases len - i,
    {
        bytes.push(0x80);
        bytes.push(0x3f);
        i = i + 1;
    }
    bytes
}

/// The buffers of the launches that assemble a query and cache a token.
#[derive(Clone, Copy, Debug, PartialEq, Eq, Structural)]
pub struct Glm52AssemblyLens {
    pub latent_query: usize,
    pub query_in: usize,
    pub latent: usize,
    pub rope_key: usize,
    pub query: usize,
    pub latent_fp8: usize,
    pub latent_scales: usize,
}

/// One of the launches that assemble a query and cache a token.
#[derive(Clone, Copy, Debug, PartialEq, Eq, Structural)]
pub enum Glm52AssemblyLaunch {
    QueryAssemble { nope: usize, head_dim: usize },
    LatentQuant { rows: usize, width: usize, group: usize },
    CachePack { position: usize },
}

/// The buffers of the assembly launches.
pub fn assembly_lens() -> (r: Glm52AssemblyLens)
    ensures
        r == (Glm52AssemblyLens {
            latent_query: 32_768,
            query_in: 16_384,
            latent: 512,
            rope_key: 64,
            query: 36_864,
            latent_fp8: 512,
            latent_scales: 4,
        }),
{
    Glm52AssemblyLens {
        latent_query: GLM52_HEADS * GLM52_KV_LORA_RANK,
        query_in: GLM52_HEADS * GLM52_QK_HEAD_DIM,
        latent: GLM52_KV_LORA_RANK,
        rope_key: GLM52_QK_ROPE_HEAD_DIM,
        query: GLM52_HEADS * GLM52_KV_A_OUT,
        latent_fp8: GLM52_KV_LORA_RANK,
        latent_scales: GLM52_KV_LORA_RANK / FP8_BLOCK,
    }
}

/// The assembly launches of one iteration, in order.
pub fn assembly_launches(position: usize) -> (r: Vec<Glm52AssemblyLaunch>)
    ensures
        r@ == seq![
            Glm52AssemblyLaunch::QueryAssemble { nope: 192, head_dim: 256 },
            Glm52AssemblyLaunch::LatentQuant { rows: 1, width: 512, group: 128 },
            Glm52AssemblyLaunch::CachePack { position },
        ],
{
    let r: Vec<Glm52AssemblyLaunch> = vec![
        Glm52AssemblyLaunch::QueryAssemble {
            nope: GLM52_QK_NOPE_HEAD_DIM,
            head_dim: GLM52_QK_HEAD_DIM,
        },
        Glm52AssemblyLaunch::LatentQuant { rows: 1, width: GLM52_KV_LORA_RANK, group: FP8_BLOCK },
        Glm52AssemblyLaunch::CachePack { position },
    ];
    assert(r@ =~= seq![
        Glm52AssemblyLaunch::QueryAssemble { nope: 192, head_dim: 256 },
        Glm52AssemblyLaunch::LatentQuant { rows: 1, width: 512, group: 128 },
        Glm52AssemblyLaunch::CachePack { position },
    ]);
    r
}

} // verus!
