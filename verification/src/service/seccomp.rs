//! The payload filter that denies set-user-ID and set-group-ID modes.
use crate::bytes;
use crate::bytes::push_little_endian;
use crate::error::{Error, ErrorView, Result};
use crate::text::glue3;
use seccompiler::SeccompAction::{Allow, Errno};
use seccompiler::SeccompCmpArgLen::Dword;
use seccompiler::SeccompCmpOp::MaskedEq;
use seccompiler::{sock_filter, BpfProgram, SeccompCondition, SeccompFilter, SeccompRule, TargetArch};
use vstd::prelude::*;

verus! {

/// Opcode that returns its immediate operand.
pub const BPF_RETURN_IMMEDIATE: u16 = 0x06;

/// Immediate operand that allows a call.
pub const SECCOMP_RET_ALLOW: u32 = 0x7fff_0000;

/// Set-user-ID mode bit.
pub const S_ISUID: u64 = 0o4000;

/// Set-group-ID mode bit.
pub const S_ISGID: u64 = 0o2000;

/// Kernel numbers of one target.
#[derive(Clone, Copy, Debug)]
pub struct KernelAbi {
    pub fchmod: u32,
    pub fchmodat: u32,
    pub fchmodat2: u32,
    pub mkdirat: u32,
    pub mknodat: u32,
    pub openat: u32,
    pub openat2: u32,
    /// Calls that only some targets have.
    pub legacy: Option<LegacyCalls>,
    pub o_creat: u64,
    pub eperm: u32,
    pub enosys: u32,
}

/// Calls that newer targets dropped.
#[derive(Clone, Copy, Debug)]
pub struct LegacyCalls {
    pub chmod: u32,
    pub mkdir: u32,
    pub mknod: u32,
    pub creat: u32,
    pub open: u32,
}

/// A demand on the low word of one argument: what its mask keeps is a value.
#[derive(Clone, Copy, Debug, PartialEq, Eq, Structural)]
pub struct Demand {
    pub argument: u8,
    pub mask: u64,
    pub value: u64,
}

/// The demand that an argument has all of some bits.
pub open spec fn demand(argument: u8, bits: u64) -> Demand {
    Demand { argument, mask: bits, value: bits }
}

/// Demand that an argument has all of some bits.
pub fn demand_bits(argument: u8, bits: u64) -> (demanded: Demand)
    ensures
        demanded == demand(argument, bits),
{
    Demand { argument, mask: bits, value: bits }
}

/// One rule: every listed demand is met.
#[derive(Clone, Copy, Debug)]
pub struct Rule {
    pub flags: Option<Demand>,
    pub mode: Demand,
}

/// What a filter answers a call with: an error number, or nothing where it allows the
/// call.
pub type Answer = Option<u32>;

impl Rule {
    /// The rule names only arguments that a call can have.
    pub open spec fn admissible(self) -> bool {
        self.mode.argument <= 5 && (self.flags matches Some(flags) ==> flags.argument <= 5)
    }
}

/// The rules of one call.
#[derive(Debug)]
pub struct CallRules {
    pub syscall: u32,
    pub rules: Vec<Rule>,
}

/// Content of a [`CallRules`].
#[verifier::ext_equal]
pub struct CallRulesView {
    pub syscall: u32,
    pub rules: Seq<Rule>,
}

impl View for CallRules {
    type V = CallRulesView;

    open spec fn view(&self) -> CallRulesView {
        CallRulesView { syscall: self.syscall, rules: self.rules@ }
    }
}

/// Content of a rule book.
pub open spec fn pages(book: Seq<CallRules>) -> Seq<CallRulesView> {
    Seq::new(book.len(), |i: int| book[i]@)
}

/// Every rule of a book is admissible.
pub open spec fn sound(book: Seq<CallRulesView>) -> bool {
    forall|i: int, j: int|
        0 <= i < book.len() && 0 <= j < book[i].rules.len() ==> (
        #[trigger] book[i].rules[j]).admissible()
}

/// A book with one more rule, calls in ascending order.
pub open spec fn with_rule(book: Seq<CallRulesView>, syscall: u32, rule: Rule) -> Seq<CallRulesView>
    decreases book.len(),
{
    let page = CallRulesView { syscall, rules: seq![rule] };
    if book.len() == 0 {
        seq![page]
    } else if syscall < book[0].syscall {
        seq![page] + book
    } else if syscall == book[0].syscall {
        seq![CallRulesView { syscall, rules: book[0].rules.push(rule) }] + book.skip(1)
    } else {
        seq![book[0]] + with_rule(book.skip(1), syscall, rule)
    }
}

/// A book holds a rule for a call.
pub open spec fn holds(book: Seq<CallRulesView>, syscall: u32, rule: Rule) -> bool {
    exists|i: int|
        0 <= i < book.len() && (#[trigger] book[i]).syscall == syscall && book[i].rules.contains(
            rule,
        )
}

/// Adding a rule adds that rule and nothing else.
pub proof fn law_rules_accumulate(
    book: Seq<CallRulesView>,
    syscall: u32,
    rule: Rule,
    other_call: u32,
    other: Rule,
)
    ensures
        holds(with_rule(book, syscall, rule), other_call, other) <==> holds(book, other_call, other)
            || (other_call == syscall && other == rule),
    decreases book.len(),
{
    let after = with_rule(book, syscall, rule);
    if book.len() == 0 {
        assert(after[0].rules[0] == rule);
    } else if syscall < book[0].syscall {
        assert(after[0].rules[0] == rule);
        assert forall|i: int| 0 <= i < book.len() implies #[trigger] book[i] == after[i + 1] by {}
        if holds(book, other_call, other) {
            let i = choose|i: int|
                0 <= i < book.len() && (#[trigger] book[i]).syscall == other_call
                    && book[i].rules.contains(other);
            assert(after[i + 1].syscall == other_call);
        }
        if holds(after, other_call, other) {
            let i = choose|i: int|
                0 <= i < after.len() && (#[trigger] after[i]).syscall == other_call
                    && after[i].rules.contains(other);
            if i > 0 {
                assert(book[i - 1] == after[i]);
            }
        }
    } else if syscall == book[0].syscall {
        let grown = book[0].rules.push(rule);
        assert(after[0].rules == grown);
        assert(grown[grown.len() - 1] == rule);
        if book[0].rules.contains(other) {
            let k = choose|k: int| 0 <= k < book[0].rules.len() && book[0].rules[k] == other;
            assert(grown[k] == other);
        }
        if grown.contains(other) {
            let k = choose|k: int| 0 <= k < grown.len() && grown[k] == other;
            if k < book[0].rules.len() {
                assert(book[0].rules[k] == other);
            }
        }
        assert forall|i: int| 1 <= i < book.len() implies #[trigger] book[i] == after[i] by {}
        if holds(book, other_call, other) {
            let i = choose|i: int|
                0 <= i < book.len() && (#[trigger] book[i]).syscall == other_call
                    && book[i].rules.contains(other);
            assert(after[i].syscall == other_call);
        }
        if holds(after, other_call, other) {
            let i = choose|i: int|
                0 <= i < after.len() && (#[trigger] after[i]).syscall == other_call
                    && after[i].rules.contains(other);
            assert(book[i].syscall == other_call);
        }
    } else {
        let rest = book.skip(1);
        law_rules_accumulate(rest, syscall, rule, other_call, other);
        let deeper = with_rule(rest, syscall, rule);
        if holds(book, other_call, other) {
            let i = choose|i: int|
                0 <= i < book.len() && (#[trigger] book[i]).syscall == other_call
                    && book[i].rules.contains(other);
            if i == 0 {
                assert(after[0].syscall == other_call);
            } else {
                assert(rest[i - 1] == book[i]);
                assert(holds(rest, other_call, other));
            }
        }
        if holds(deeper, other_call, other) {
            let i = choose|i: int|
                0 <= i < deeper.len() && (#[trigger] deeper[i]).syscall == other_call
                    && deeper[i].rules.contains(other);
            assert(after[i + 1] == deeper[i]);
        }
        if holds(rest, other_call, other) {
            let i = choose|i: int|
                0 <= i < rest.len() && (#[trigger] rest[i]).syscall == other_call
                    && rest[i].rules.contains(other);
            assert(book[i + 1] == rest[i]);
        }
        if holds(after, other_call, other) {
            let i = choose|i: int|
                0 <= i < after.len() && (#[trigger] after[i]).syscall == other_call
                    && after[i].rules.contains(other);
            if i == 0 {
                assert(book[0].syscall == other_call);
            } else {
                assert(deeper[i - 1] == after[i]);
                assert(holds(deeper, other_call, other));
            }
        }
    }
}

proof fn lemma_sound(book: Seq<CallRulesView>, syscall: u32, rule: Rule)
    requires
        sound(book),
        rule.admissible(),
    ensures
        sound(with_rule(book, syscall, rule)),
    decreases book.len(),
{
    let after = with_rule(book, syscall, rule);
    if book.len() > 0 && syscall > book[0].syscall {
        let rest = book.skip(1);
        assert forall|i: int, j: int|
            0 <= i < rest.len() && 0 <= j < rest[i].rules.len() implies (
        #[trigger] rest[i].rules[j]).admissible() by {
            assert(rest[i] == book[i + 1]);
            assert(book[i + 1].rules[j].admissible());
        }
        lemma_sound(rest, syscall, rule);
        let deeper = with_rule(rest, syscall, rule);
        assert forall|i: int, j: int|
            0 <= i < after.len() && 0 <= j < after[i].rules.len() implies (
        #[trigger] after[i].rules[j]).admissible() by {
            if i == 0 {
                assert(book[0].rules[j].admissible());
            } else {
                assert(after[i] == deeper[i - 1]);
                assert(deeper[i - 1].rules[j].admissible());
            }
        }
    } else {
        assert forall|i: int, j: int|
            0 <= i < after.len() && 0 <= j < after[i].rules.len() implies (
        #[trigger] after[i].rules[j]).admissible() by {
            if book.len() > 0 {
                if syscall < book[0].syscall {
                    if i > 0 {
                        assert(after[i] == book[i - 1]);
                        assert(book[i - 1].rules[j].admissible());
                    }
                } else if i == 0 {
                    if j < book[0].rules.len() {
                        assert(book[0].rules[j].admissible());
                    }
                } else {
                    assert(after[i] == book[i]);
                    assert(book[i].rules[j].admissible());
                }
            }
        }
    }
}

proof fn lemma_with_rule_at(book: Seq<CallRulesView>, syscall: u32, rule: Rule, at: int)
    requires
        0 <= at <= book.len(),
        forall|i: int| 0 <= i < at ==> (#[trigger] book[i]).syscall < syscall,
        at < book.len() ==> syscall <= book[at].syscall,
    ensures
        with_rule(book, syscall, rule) == if at < book.len() && book[at].syscall == syscall {
            book.update(at, CallRulesView { syscall, rules: book[at].rules.push(rule) })
        } else {
            book.insert(at, CallRulesView { syscall, rules: seq![rule] })
        },
    decreases at,
{
    let found = at < book.len() && book[at].syscall == syscall;
    let page = CallRulesView { syscall, rules: seq![rule] };
    if at == 0 {
        if book.len() == 0 {
            assert(with_rule(book, syscall, rule) =~= book.insert(0, page));
        } else if found {
            assert(with_rule(book, syscall, rule) =~= book.update(
                0,
                CallRulesView { syscall, rules: book[0].rules.push(rule) },
            ));
        } else {
            assert(with_rule(book, syscall, rule) =~= book.insert(0, page));
        }
    } else {
        let rest = book.skip(1);
        assert forall|i: int| 0 <= i < at - 1 implies (#[trigger] rest[i]).syscall < syscall by {
            assert(rest[i] == book[i + 1]);
        }
        assert(at < book.len() ==> rest[at - 1] == book[at]);
        assert(book[0].syscall < syscall);
        lemma_with_rule_at(rest, syscall, rule, at - 1);
        if found {
            assert(with_rule(book, syscall, rule) =~= book.update(
                at,
                CallRulesView { syscall, rules: book[at].rules.push(rule) },
            ));
        } else {
            assert(with_rule(book, syscall, rule) =~= book.insert(at, page));
        }
    }
}

/// Add one rule to a book.
pub fn push_rule(book: &mut Vec<CallRules>, syscall: u32, rule: Rule)
    ensures
        pages(final(book)@) == with_rule(pages(old(book)@), syscall, rule),
{
    let ghost before = pages(book@);
    let mut at: usize = 0;
    while at < book.len() && book[at].syscall < syscall
        invariant
            at <= book.len(),
            book@ == old(book)@,
            before == pages(book@),
            forall|i: int| 0 <= i < at ==> (#[trigger] before[i]).syscall < syscall,
        decreases book.len() - at,
    {
        assert(before[at as int].syscall == book@[at as int].syscall);
        at += 1;
    }
    proof {
        if at < book.len() {
            assert(before[at as int].syscall == book@[at as int].syscall);
        }
        lemma_with_rule_at(before, syscall, rule, at as int);
    }
    if at < book.len() && book[at].syscall == syscall {
        let mut rules: Vec<Rule> = book[at].rules.clone();
        assert(rules@ =~= book@[at as int].rules@);
        rules.push(rule);
        book.set(at, CallRules { syscall, rules });
        assert(pages(book@) =~= before.update(
            at as int,
            CallRulesView { syscall, rules: before[at as int].rules.push(rule) },
        ));
    } else {
        let mut rules: Vec<Rule> = Vec::new();
        rules.push(rule);
        assert(rules@ =~= seq![rule]);
        book.insert(at, CallRules { syscall, rules });
        assert(pages(book@) =~= before.insert(
            at as int,
            CallRulesView { syscall, rules: seq![rule] },
        ));
    }
}

/// A book that also denies both mode bits of one call's mode argument.
pub open spec fn modes_severed(
    book: Seq<CallRulesView>,
    syscall: u32,
    mode_argument: u8,
) -> Seq<CallRulesView> {
    with_rule(
        with_rule(book, syscall, Rule { flags: None, mode: demand(mode_argument, S_ISUID) }),
        syscall,
        Rule { flags: None, mode: demand(mode_argument, S_ISGID) },
    )
}

/// Deny both mode bits of one call's mode argument.
pub fn sever_sxid_modes(book: &mut Vec<CallRules>, syscall: u32, mode_argument: u8)
    requires
        mode_argument <= 5,
        sound(pages(old(book)@)),
    ensures
        pages(final(book)@) == modes_severed(pages(old(book)@), syscall, mode_argument),
        sound(pages(final(book)@)),
{
    proof {
        lemma_sound(
            pages(book@),
            syscall,
            Rule { flags: None, mode: demand(mode_argument, S_ISUID) },
        );
    }
    push_rule(book, syscall, Rule { flags: None, mode: demand_bits(mode_argument, S_ISUID) });
    proof {
        lemma_sound(
            pages(book@),
            syscall,
            Rule { flags: None, mode: demand(mode_argument, S_ISGID) },
        );
    }
    push_rule(book, syscall, Rule { flags: None, mode: demand_bits(mode_argument, S_ISGID) });
}

/// A book that also denies both mode bits of one call, when the call creates.
pub open spec fn creation_severed(
    book: Seq<CallRulesView>,
    syscall: u32,
    flags: Demand,
    mode_argument: u8,
) -> Seq<CallRulesView> {
    with_rule(
        with_rule(book, syscall, Rule { flags: Some(flags), mode: demand(mode_argument, S_ISUID) }),
        syscall,
        Rule { flags: Some(flags), mode: demand(mode_argument, S_ISGID) },
    )
}

/// Deny both mode bits of one call, when the call creates.
pub fn sever_sxid_creation(
    book: &mut Vec<CallRules>,
    syscall: u32,
    flags_argument: u8,
    o_creat: u64,
    mode_argument: u8,
)
    requires
        flags_argument <= 5,
        mode_argument <= 5,
        sound(pages(old(book)@)),
    ensures
        pages(final(book)@) == creation_severed(
            pages(old(book)@),
            syscall,
            demand(flags_argument, o_creat),
            mode_argument,
        ),
        sound(pages(final(book)@)),
{
    let flags = Some(demand_bits(flags_argument, o_creat));
    proof {
        lemma_sound(pages(book@), syscall, Rule { flags, mode: demand(mode_argument, S_ISUID) });
    }
    push_rule(book, syscall, Rule { flags, mode: demand_bits(mode_argument, S_ISUID) });
    proof {
        lemma_sound(pages(book@), syscall, Rule { flags, mode: demand(mode_argument, S_ISGID) });
    }
    push_rule(book, syscall, Rule { flags, mode: demand_bits(mode_argument, S_ISGID) });
}

/// The rules of a target's filter.
pub open spec fn sxid_rules(abi: KernelAbi) -> Seq<CallRulesView> {
    let common = modes_severed(
        modes_severed(
            modes_severed(
                modes_severed(modes_severed(Seq::empty(), abi.fchmod, 1), abi.fchmodat, 2),
                abi.fchmodat2,
                2,
            ),
            abi.mkdirat,
            2,
        ),
        abi.mknodat,
        2,
    );
    match abi.legacy {
        Some(legacy) => creation_severed(
            creation_severed(
                modes_severed(
                    modes_severed(
                        modes_severed(modes_severed(common, legacy.chmod, 1), legacy.mkdir, 1),
                        legacy.mknod,
                        1,
                    ),
                    legacy.creat,
                    1,
                ),
                abi.openat,
                demand(2, abi.o_creat),
                3,
            ),
            legacy.open,
            demand(1, abi.o_creat),
            2,
        ),
        None => creation_severed(common, abi.openat, demand(2, abi.o_creat), 3),
    }
}

/// Collect the rules of a target's filter.
pub fn collect_rules(abi: &KernelAbi) -> (book: Vec<CallRules>)
    ensures
        pages(book@) == sxid_rules(*abi),
        sound(pages(book@)),
{
    let mut book: Vec<CallRules> = Vec::new();
    assert(pages(book@) =~= Seq::<CallRulesView>::empty());
    sever_sxid_modes(&mut book, abi.fchmod, 1);
    sever_sxid_modes(&mut book, abi.fchmodat, 2);
    sever_sxid_modes(&mut book, abi.fchmodat2, 2);
    sever_sxid_modes(&mut book, abi.mkdirat, 2);
    sever_sxid_modes(&mut book, abi.mknodat, 2);
    match abi.legacy {
        Some(legacy) => {
            sever_sxid_modes(&mut book, legacy.chmod, 1);
            sever_sxid_modes(&mut book, legacy.mkdir, 1);
            sever_sxid_modes(&mut book, legacy.mknod, 1);
            sever_sxid_modes(&mut book, legacy.creat, 1);
            sever_sxid_creation(&mut book, abi.openat, 2, abi.o_creat, 3);
            sever_sxid_creation(&mut book, legacy.open, 1, abi.o_creat, 2);
        },
        None => {
            sever_sxid_creation(&mut book, abi.openat, 2, abi.o_creat, 3);
        },
    }
    book
}

/// Both mode rules of one argument.
pub open spec fn is_mode_rule(rule: Rule, flags: Option<Demand>, mode_argument: u8) -> bool {
    rule.flags == flags && (rule.mode == demand(mode_argument, S_ISUID) || rule.mode == demand(
        mode_argument,
        S_ISGID,
    ))
}

/// What a target's filter denies.
pub open spec fn severed(abi: KernelAbi, call: u32, rule: Rule) -> bool {
    ||| call == abi.fchmod && is_mode_rule(rule, None, 1)
    ||| call == abi.fchmodat && is_mode_rule(rule, None, 2)
    ||| call == abi.fchmodat2 && is_mode_rule(rule, None, 2)
    ||| call == abi.mkdirat && is_mode_rule(rule, None, 2)
    ||| call == abi.mknodat && is_mode_rule(rule, None, 2)
    ||| call == abi.openat && is_mode_rule(rule, Some(demand(2u8, abi.o_creat)), 3)
    ||| abi.legacy matches Some(legacy) && {
        ||| call == legacy.chmod && is_mode_rule(rule, None, 1)
        ||| call == legacy.mkdir && is_mode_rule(rule, None, 1)
        ||| call == legacy.mknod && is_mode_rule(rule, None, 1)
        ||| call == legacy.creat && is_mode_rule(rule, None, 1)
        ||| call == legacy.open && is_mode_rule(rule, Some(demand(1u8, abi.o_creat)), 2)
    }
}

proof fn lemma_severing(
    book: Seq<CallRulesView>,
    syscall: u32,
    flags: Option<Demand>,
    mode_argument: u8,
    call: u32,
    rule: Rule,
)
    ensures
        holds(
            with_rule(
                with_rule(book, syscall, Rule { flags, mode: demand(mode_argument, S_ISUID) }),
                syscall,
                Rule { flags, mode: demand(mode_argument, S_ISGID) },
            ),
            call,
            rule,
        ) <==> holds(book, call, rule) || (call == syscall && is_mode_rule(
            rule,
            flags,
            mode_argument,
        )),
{
    let first = Rule { flags, mode: demand(mode_argument, S_ISUID) };
    let second = Rule { flags, mode: demand(mode_argument, S_ISGID) };
    law_rules_accumulate(book, syscall, first, call, rule);
    law_rules_accumulate(with_rule(book, syscall, first), syscall, second, call, rule);
}

/// A target's filter denies both mode bits of every covered call, when the call
/// sets or creates with them, and denies nothing else.
pub proof fn law_filter_denies_exactly(abi: KernelAbi, call: u32, rule: Rule)
    ensures
        holds(sxid_rules(abi), call, rule) <==> severed(abi, call, rule),
{
    let b0 = Seq::<CallRulesView>::empty();
    lemma_severing(b0, abi.fchmod, None, 1, call, rule);
    let b1 = modes_severed(b0, abi.fchmod, 1);
    lemma_severing(b1, abi.fchmodat, None, 2, call, rule);
    let b2 = modes_severed(b1, abi.fchmodat, 2);
    lemma_severing(b2, abi.fchmodat2, None, 2, call, rule);
    let b3 = modes_severed(b2, abi.fchmodat2, 2);
    lemma_severing(b3, abi.mkdirat, None, 2, call, rule);
    let b4 = modes_severed(b3, abi.mkdirat, 2);
    lemma_severing(b4, abi.mknodat, None, 2, call, rule);
    let b5 = modes_severed(b4, abi.mknodat, 2);
    match abi.legacy {
        Some(legacy) => {
            lemma_severing(b5, legacy.chmod, None, 1, call, rule);
            let b6 = modes_severed(b5, legacy.chmod, 1);
            lemma_severing(b6, legacy.mkdir, None, 1, call, rule);
            let b7 = modes_severed(b6, legacy.mkdir, 1);
            lemma_severing(b7, legacy.mknod, None, 1, call, rule);
            let b8 = modes_severed(b7, legacy.mknod, 1);
            lemma_severing(b8, legacy.creat, None, 1, call, rule);
            let b9 = modes_severed(b8, legacy.creat, 1);
            lemma_severing(b9, abi.openat, Some(demand(2u8, abi.o_creat)), 3, call, rule);
            let b10 = creation_severed(b9, abi.openat, demand(2u8, abi.o_creat), 3);
            lemma_severing(b10, legacy.open, Some(demand(1u8, abi.o_creat)), 2, call, rule);
        },
        None => {
            lemma_severing(b5, abi.openat, Some(demand(2u8, abi.o_creat)), 3, call, rule);
        },
    }
}

// ---------------------------------------------------------------------------
// Compilation
// ---------------------------------------------------------------------------

/// One filter instruction.
#[derive(Clone, Copy, Debug, PartialEq, Eq, Structural)]
pub struct Instruction {
    pub code: u16,
    pub jt: u8,
    pub jf: u8,
    pub k: u32,
}

/// Why an architecture has no filters, when it has none.
pub uninterp spec fn target_objection(architecture: Seq<char>) -> Option<Seq<char>>;

/// `TargetArch::try_from` of seccompiler: whether an architecture name is
/// supported, and otherwise the rendered error, which quotes the name. Three names
/// are supported; which other spellings of them are is left to the name
/// [`target_objection`].
#[verifier::external_body]
fn target_fault(architecture: &str) -> (fault: Option<String>)
    ensures
        match fault {
            Some(fault) => target_objection(architecture@) == Some(fault@) && fault@
                == "Invalid target arch: "@ + architecture@ + "."@,
            None => target_objection(architecture@) is None,
        },
        architecture@ == "x86_64"@ || architecture@ == "aarch64"@ || architecture@ == "riscv64"@
            ==> fault is None,
{
    TargetArch::try_from(architecture).err().map(|error| error.to_string())
}

/// The program that a filter compiles to, or the rendered compiler error.
pub uninterp spec fn compiled(
    book: Seq<CallRulesView>,
    otherwise: Answer,
    matched: Answer,
    architecture: Seq<char>,
) -> std::result::Result<Seq<Instruction>, Seq<char>>;

/// `SeccompFilter::new` of seccompiler and its conversion to a BPF program: the
/// filter that answers a call matched by one of its rules with `matched`, and every
/// other call with `otherwise`. A demand is a masked comparison of the low word of its
/// argument. A call with no rules is always matched. The program depends on the
/// rules, the answers, and the architecture alone; [`compiled`] names it.
#[verifier::external_body]
fn compile(book: &Vec<CallRules>, otherwise: Answer, matched: Answer, architecture: &str) -> (
    program: std::result::Result<Vec<Instruction>, String>)
    requires
        sound(pages(book@)),
        target_objection(architecture@) is None,
    ensures
        match program {
            Ok(program) => compiled(pages(book@), otherwise, matched, architecture@) == Ok::<
                _,
                Seq<char>,
            >(program@),
            Err(fault) => compiled(pages(book@), otherwise, matched, architecture@) == Err::<
                Seq<Instruction>,
                _,
            >(fault@),
        },
{
    SeccompFilter::new(
        book.iter().map(|call| (call.syscall.into(), call.rules.iter().map(|rule| SeccompRule::new(
            rule.flags.into_iter().chain([rule.mode]).map(|d| SeccompCondition::new(d.argument, Dword, MaskedEq(d.mask), d.value).unwrap()).collect()
        ).unwrap()).collect())).collect(),
        otherwise.map_or(Allow, Errno),
        matched.map_or(Allow, Errno),
        architecture.try_into().unwrap()
    )
        .and_then(BpfProgram::try_from)
        .map(|program| program.iter().map(|&sock_filter { code, jt, jf, k }| Instruction { code, jt, jf, k }).collect())
        .map_err(|error| error.to_string())
}

/// A failure to build the payload filter.
pub open spec fn sxid_failure(operation: Seq<char>, fault: Seq<char>) -> ErrorView {
    ErrorView::Containment { layer: "payload seccomp"@, detail: operation + ": "@ + fault }
}

fn sxid_fault(operation: &str, fault: &str) -> (error: Error)
    ensures
        error@ == sxid_failure(operation@, fault@),
{
    Error::Containment { layer: "payload seccomp", detail: glue3(operation, ": ", fault) }
}

/// What compiling a book gives, or its failure: the filter refuses a matched call
/// with `errno`, and allows every other call.
pub open spec fn compilation(
    book: Seq<CallRulesView>,
    errno: u32,
    architecture: Seq<char>,
) -> std::result::Result<Seq<Instruction>, ErrorView> {
    match target_objection(architecture) {
        Some(fault) => Err(sxid_failure("resolve target architecture"@, fault)),
        None => match compiled(book, None, Some(errno), architecture) {
            Ok(program) => Ok(program),
            Err(fault) => Err(sxid_failure("compile filter"@, fault)),
        },
    }
}

/// Compile a book for an architecture.
pub fn compile_seccomp(book: &Vec<CallRules>, errno: u32, architecture: &str) -> (program: Result<
    Vec<Instruction>,
>)
    requires
        sound(pages(book@)),
    ensures
        match program {
            Ok(program) => compilation(pages(book@), errno, architecture@) == Ok::<_, ErrorView>(
                program@,
            ),
            Err(error) => compilation(pages(book@), errno, architecture@) == Err::<
                Seq<Instruction>,
                _,
            >(error@),
        },
{
    match target_fault(architecture) {
        Some(fault) => {
            return Err(sxid_fault("resolve target architecture", fault.as_str()));
        },
        None => {},
    }
    match compile(book, None, Some(errno), architecture) {
        Ok(program) => Ok(program),
        Err(fault) => Err(sxid_fault("compile filter", fault.as_str())),
    }
}

/// The instruction that ends a filter by allowing the call.
pub open spec fn terminal_allow() -> Instruction {
    Instruction { code: BPF_RETURN_IMMEDIATE, jt: 0, jf: 0, k: SECCOMP_RET_ALLOW }
}

/// A filter without its terminal instruction, which must allow.
pub open spec fn opened(filter: Seq<Instruction>) -> std::result::Result<
    Seq<Instruction>,
    ErrorView,
> {
    if filter.len() == 0 {
        Err(sxid_failure("compose filters"@, "missing terminal action"@))
    } else if filter.last() != terminal_allow() {
        Err(
            sxid_failure("compose filters"@, "compiler emitted an unexpected terminal action"@),
        )
    } else {
        Ok(filter.drop_last())
    }
}

/// Remove a filter's terminal instruction, so that another filter can follow.
pub fn sever_terminal_allow(filter: &mut Vec<Instruction>) -> (verdict: Result<()>)
    ensures
        match verdict {
            Ok(_) => opened(old(filter)@) == Ok::<_, ErrorView>(final(filter)@),
            Err(error) => opened(old(filter)@) == Err::<Seq<Instruction>, _>(error@),
        },
{
    match filter.pop() {
        None => Err(sxid_fault("compose filters", "missing terminal action")),
        Some(terminal) => {
            if terminal.code != BPF_RETURN_IMMEDIATE || terminal.jt != 0 || terminal.jf != 0
                || terminal.k != SECCOMP_RET_ALLOW {
                return Err(
                    sxid_fault("compose filters", "compiler emitted an unexpected terminal action"),
                );
            }
            assert(filter@ =~= old(filter)@.drop_last());
            Ok(())
        },
    }
}

/// An instruction in memory order.
pub open spec fn encoded(instruction: Instruction, big_endian: bool) -> Seq<u8> {
    let code = bytes::little_endian(instruction.code as nat, 2);
    let k = bytes::little_endian(instruction.k as nat, 4);
    if big_endian {
        code.reverse() + seq![instruction.jt, instruction.jf] + k.reverse()
    } else {
        code + seq![instruction.jt, instruction.jf] + k
    }
}

/// A program in memory order.
pub open spec fn encoded_program(program: Seq<Instruction>, big_endian: bool) -> Seq<u8>
    decreases program.len(),
{
    if program.len() == 0 {
        Seq::empty()
    } else {
        encoded_program(program.drop_last(), big_endian) + encoded(program.last(), big_endian)
    }
}

fn push_field(output: &mut Vec<u8>, value: u64, width: usize, big_endian: bool)
    ensures
        final(output)@ == old(output)@ + if big_endian {
            bytes::little_endian(value as nat, width as nat).reverse()
        } else {
            bytes::little_endian(value as nat, width as nat)
        },
{
    let mut field: Vec<u8> = Vec::new();
    push_little_endian(&mut field, value, width);
    let ghost digits = field@;
    assert(digits =~= bytes::little_endian(value as nat, width as nat));
    let count: usize = field.len();
    let mut index: usize = 0;
    let ghost ordered = if big_endian {
        digits.reverse()
    } else {
        digits
    };
    assert(output@ + ordered.take(0) =~= output@);
    while index < count
        invariant
            index <= count,
            count == field@.len(),
            digits == field@,
            ordered == (if big_endian {
                digits.reverse()
            } else {
                digits
            }),
            output@ == old(output)@ + ordered.take(index as int),
        decreases count - index,
    {
        let byte: u8 = if big_endian {
            field[count - 1 - index]
        } else {
            field[index]
        };
        assert(byte == ordered[index as int]);
        output.push(byte);
        assert(ordered.take(index + 1) =~= ordered.take(index as int).push(byte));
        assert(output@ =~= old(output)@ + ordered.take(index + 1));
        index += 1;
    }
    assert(ordered.take(index as int) =~= ordered);
}

/// Lay a program out in memory order.
pub fn encode_program(program: &Vec<Instruction>, big_endian: bool) -> (output: Vec<u8>)
    ensures
        output@ == encoded_program(program@, big_endian),
{
    let mut output: Vec<u8> = Vec::new();
    let mut index: usize = 0;
    assert(program@.take(0) =~= Seq::<Instruction>::empty());
    while index < program.len()
        invariant
            index <= program.len(),
            output@ == encoded_program(program@.take(index as int), big_endian),
        decreases program.len() - index,
    {
        let instruction = program[index];
        let ghost before = output@;
        push_field(&mut output, instruction.code as u64, 2, big_endian);
        output.push(instruction.jt);
        output.push(instruction.jf);
        push_field(&mut output, instruction.k as u64, 4, big_endian);
        proof {
            let longer = program@.take(index + 1);
            assert(longer.drop_last() =~= program@.take(index as int));
            assert(longer.last() == instruction);
            assert(output@ =~= before + encoded(instruction, big_endian));
        }
        index += 1;
    }
    assert(program@.take(index as int) =~= program@);
    output
}

/// The filter that answers one call.
pub open spec fn single(syscall: u32) -> Seq<CallRulesView> {
    seq![CallRulesView { syscall, rules: Seq::empty() }]
}

/// The whole payload filter: the mode filter, then the answer to the call whose
/// mode cannot be inspected.
pub open spec fn guillotine(
    denial: std::result::Result<Seq<Instruction>, ErrorView>,
    answer: std::result::Result<Seq<Instruction>, ErrorView>,
) -> std::result::Result<Seq<Instruction>, ErrorView> {
    match denial {
        Err(error) => Err(error),
        Ok(denial) => match opened(denial) {
            Err(error) => Err(error),
            Ok(denial) => match answer {
                Err(error) => Err(error),
                Ok(answer) => Ok(denial + answer),
            },
        },
    }
}

/// Compose the payload filter from its two compiled halves.
pub fn compose_guillotine(denial: Result<Vec<Instruction>>, answer: Result<Vec<Instruction>>) -> (
program: Result<Vec<Instruction>>)
    ensures
        ({
            let whole = guillotine(halved(denial), halved(answer));
            match program {
                Ok(program) => whole == Ok::<_, ErrorView>(program@),
                Err(error) => whole == Err::<Seq<Instruction>, _>(error@),
            }
        }),
{
    let mut filter = match denial {
        Ok(filter) => filter,
        Err(error) => {
            return Err(error);
        },
    };
    match sever_terminal_allow(&mut filter) {
        Ok(_) => {},
        Err(error) => {
            return Err(error);
        },
    }
    let mut rest = match answer {
        Ok(rest) => rest,
        Err(error) => {
            return Err(error);
        },
    };
    let ghost first = filter@;
    let ghost second = rest@;
    filter.append(&mut rest);
    assert(filter@ =~= first + second);
    Ok(filter)
}

/// Content of one compiled half.
pub open spec fn halved(half: Result<Vec<Instruction>>) -> std::result::Result<
    Seq<Instruction>,
    ErrorView,
> {
    match half {
        Ok(program) => Ok(program@),
        Err(error) => Err(error@),
    }
}

/// Forge the payload filter of a target in memory order.
///
/// The service already denies calls whose mode is indirect; this filter applies
/// the same rule inside the sandbox, after the sandbox itself is built.
pub fn forge_sxid_guillotine(abi: &KernelAbi, architecture: &str, big_endian: bool) -> (filter:
    Result<Vec<u8>>)
    ensures
        ({
            let whole = guillotine(
                compilation(sxid_rules(*abi), abi.eperm, architecture@),
                compilation(single(abi.openat2), abi.enosys, architecture@),
            );
            match filter {
                Ok(filter) => whole matches Ok(program) && filter@ == encoded_program(
                    program,
                    big_endian,
                ),
                Err(error) => whole == Err::<Seq<Instruction>, _>(error@),
            }
        }),
{
    let book = collect_rules(abi);
    let denial = compile_seccomp(&book, abi.eperm, architecture);
    let mut sole: Vec<CallRules> = Vec::new();
    let none: Vec<Rule> = Vec::new();
    sole.push(CallRules { syscall: abi.openat2, rules: none });
    assert(none@ =~= Seq::<Rule>::empty());
    assert(pages(sole@) =~= single(abi.openat2));
    let answer = compile_seccomp(&sole, abi.enosys, architecture);
    match compose_guillotine(denial, answer) {
        Ok(program) => Ok(encode_program(&program, big_endian)),
        Err(error) => Err(error),
    }
}

// ---------------------------------------------------------------------------
// Laws
// ---------------------------------------------------------------------------

/// Whether an argument has all of some bits.
pub open spec fn has(arguments: Seq<u64>, index: int, bits: u64) -> bool {
    arguments[index] & bits == bits
}

/// Whether a mode argument makes a file run as its owner or as its group.
pub open spec fn sets_id(arguments: Seq<u64>, mode: int) -> bool {
    has(arguments, mode, 2048) || has(arguments, mode, 1024)
}

/// Whether a call's arguments meet a demand.
pub open spec fn meets(arguments: Seq<u64>, demand: Demand) -> bool {
    arguments[demand.argument as int] & demand.mask == demand.value
}

/// Whether a call's arguments meet a rule.
pub open spec fn breaks(arguments: Seq<u64>, rule: Rule) -> bool {
    meets(arguments, rule.mode) && (rule.flags matches Some(flags) ==> meets(arguments, flags))
}

/// Whether a book has a rule that a call meets.
pub open spec fn forbids(book: Seq<CallRulesView>, call: u32, arguments: Seq<u64>) -> bool {
    exists|rule: Rule| #[trigger] holds(book, call, rule) && breaks(arguments, rule)
}

/// Whether a call would give a file a set-id mode: the calls that change a mode or make a
/// node do so with their mode, and those that open do so where they also create.
pub open spec fn elevates(abi: KernelAbi, call: u32, arguments: Seq<u64>) -> bool {
    ||| call == abi.fchmod && sets_id(arguments, 1)
    ||| call == abi.fchmodat && sets_id(arguments, 2)
    ||| call == abi.fchmodat2 && sets_id(arguments, 2)
    ||| call == abi.mkdirat && sets_id(arguments, 2)
    ||| call == abi.mknodat && sets_id(arguments, 2)
    ||| call == abi.openat && has(arguments, 2, abi.o_creat) && sets_id(arguments, 3)
    ||| abi.legacy matches Some(legacy) && {
        ||| call == legacy.chmod && sets_id(arguments, 1)
        ||| call == legacy.mkdir && sets_id(arguments, 1)
        ||| call == legacy.mknod && sets_id(arguments, 1)
        ||| call == legacy.creat && sets_id(arguments, 1)
        ||| call == legacy.open && has(arguments, 1, abi.o_creat) && sets_id(arguments, 2)
    }
}

proof fn lemma_forbidden(
    abi: KernelAbi,
    call: u32,
    arguments: Seq<u64>,
    flags: Option<Demand>,
    mode: u8,
)
    requires
        sets_id(arguments, mode as int),
        flags matches Some(flags) ==> meets(arguments, flags),
        forall|rule: Rule| is_mode_rule(rule, flags, mode) ==> #[trigger] severed(abi, call, rule),
    ensures
        forbids(sxid_rules(abi), call, arguments),
{
    let user = Rule { flags, mode: demand(mode, S_ISUID) };
    let group = Rule { flags, mode: demand(mode, S_ISGID) };
    law_filter_denies_exactly(abi, call, user);
    law_filter_denies_exactly(abi, call, group);
    assert(severed(abi, call, user));
    assert(severed(abi, call, group));
    if has(arguments, mode as int, 2048) {
        assert(holds(sxid_rules(abi), call, user) && breaks(arguments, user));
    } else {
        assert(holds(sxid_rules(abi), call, group) && breaks(arguments, group));
    }
}

/// The payload filter's rules are met by exactly the calls that would give a file a set-id
/// mode.
pub proof fn law_rules_forbid_set_id_modes(
    abi: KernelAbi,
    book: Vec<CallRules>,
    call: u32,
    arguments: Seq<u64>,
)
    requires
        collect_rules.ensures((&abi,), book),
    ensures
        forbids(pages(book@), call, arguments) <==> elevates(abi, call, arguments),
{
    if forbids(pages(book@), call, arguments) {
        let rule = choose|rule: Rule| #[trigger]
            holds(pages(book@), call, rule) && breaks(arguments, rule);
        law_filter_denies_exactly(abi, call, rule);
    }
    if elevates(abi, call, arguments) {
        if (call == abi.fchmod && sets_id(arguments, 1)) || (abi.legacy matches Some(legacy) && (
        call == legacy.chmod || call == legacy.mkdir || call == legacy.mknod || call
            == legacy.creat) && sets_id(arguments, 1)) {
            lemma_forbidden(abi, call, arguments, None, 1);
        } else if (call == abi.fchmodat || call == abi.fchmodat2 || call == abi.mkdirat || call
            == abi.mknodat) && sets_id(arguments, 2) {
            lemma_forbidden(abi, call, arguments, None, 2);
        } else if call == abi.openat && has(arguments, 2, abi.o_creat) && sets_id(arguments, 3) {
            lemma_forbidden(abi, call, arguments, Some(demand(2u8, abi.o_creat)), 3);
        } else {
            lemma_forbidden(abi, call, arguments, Some(demand(1u8, abi.o_creat)), 2);
        }
    }
}

/// The forged filter answers set-id modes with the permission error and the call whose mode
/// cannot be read with the error of a missing call, in that order, and lets every other
/// call pass. The first half gives way to the second where it would have allowed.
pub proof fn law_filters_answer_in_order(
    abi: KernelAbi,
    architecture: &str,
    big_endian: bool,
    filter: Vec<u8>,
    book: Vec<CallRules>,
)
    requires
        collect_rules.ensures((&abi,), book),
        forge_sxid_guillotine.ensures((&abi, architecture, big_endian), Ok(filter)),
    ensures
        exists|denial: Seq<Instruction>, answer: Seq<Instruction>|
            compiled(pages(book@), None, Some(abi.eperm), architecture@) == Ok::<_, Seq<char>>(
                denial,
            ) && compiled(
                seq![CallRulesView { syscall: abi.openat2, rules: Seq::empty() }],
                None,
                Some(abi.enosys),
                architecture@,
            ) == Ok::<_, Seq<char>>(answer) && denial.len() > 0 && denial.last() == (Instruction {
                code: 6,
                jt: 0,
                jf: 0,
                k: 0x7fff_0000,
            }) && filter@ == encoded_program(
                #[trigger] (denial.drop_last() + answer),
                big_endian,
            ),
{
    let whole = guillotine(
        compilation(sxid_rules(abi), abi.eperm, architecture@),
        compilation(single(abi.openat2), abi.enosys, architecture@),
    );
    let denial = compiled(sxid_rules(abi), None, Some(abi.eperm), architecture@)->Ok_0;
    let answer = compiled(single(abi.openat2), None, Some(abi.enosys), architecture@)->Ok_0;
    assert(whole == Ok::<_, ErrorView>(denial.drop_last() + answer));
}

/// Whether eight bytes are an instruction in memory order.
pub open spec fn laid_out(bytes: Seq<u8>, at: int, instruction: Instruction, big_endian: bool) -> bool {
    &&& bytes[at + 2] == instruction.jt
    &&& bytes[at + 3] == instruction.jf
    &&& if big_endian {
        &&& instruction.code == 0x100 * bytes[at] + bytes[at + 1]
        &&& instruction.k == 0x100_0000 * bytes[at + 4] + 0x1_0000 * bytes[at + 5] + 0x100
            * bytes[at + 6] + bytes[at + 7]
    } else {
        &&& instruction.code == bytes[at] + 0x100 * bytes[at + 1]
        &&& instruction.k == bytes::four(bytes, at + 4)
    }
}

proof fn lemma_digits(value: nat)
    ensures
        value < 0x1_0000 ==> ({
            let two = bytes::little_endian(value, 2);
            two.len() == 2 && value == two[0] + 0x100 * two[1]
        }),
        value < 0x1_0000_0000 ==> ({
            let four = bytes::little_endian(value, 4);
            four.len() == 4 && value == bytes::four(four, 0)
        }),
{
    reveal_with_fuel(bytes::little_endian, 5);
}

proof fn lemma_laid_out(program: Seq<Instruction>, big_endian: bool)
    ensures
        encoded_program(program, big_endian).len() == 8 * program.len(),
        forall|i: int|
            0 <= i < program.len() ==> laid_out(
                encoded_program(program, big_endian),
                8 * i,
                #[trigger] program[i],
                big_endian,
            ),
    decreases program.len(),
{
    if program.len() > 0 {
        let front = program.drop_last();
        let last = program.last();
        let whole = encoded_program(program, big_endian);
        lemma_laid_out(front, big_endian);
        lemma_digits(last.code as nat);
        lemma_digits(last.k as nat);
        let tail = encoded(last, big_endian);
        assert(tail.len() == 8);
        let start = 8 * front.len() as int;
        assert forall|i: int| 0 <= i < 8 implies #[trigger] whole[start + i] == tail[i] by {}
        assert(whole[start] == tail[0] && whole[start + 1] == tail[1] && whole[start + 2] == tail[2]
            && whole[start + 3] == tail[3] && whole[start + 4] == tail[4] && whole[start + 5]
            == tail[5] && whole[start + 6] == tail[6] && whole[start + 7] == tail[7]);
        assert(laid_out(whole, start, last, big_endian));
        assert forall|i: int| 0 <= i < program.len() implies laid_out(
            whole,
            8 * i,
            #[trigger] program[i],
            big_endian,
        ) by {
            if i < front.len() {
                assert(front[i] == program[i]);
                assert(laid_out(encoded_program(front, big_endian), 8 * i, front[i], big_endian));
            }
        }
    }
}

/// A program is laid out as eight bytes for each instruction, in order: the code, both
/// jumps, and the operand, the numbers in the machine's byte order.
pub proof fn law_programs_are_laid_out(
    program: Vec<Instruction>,
    big_endian: bool,
    output: Vec<u8>,
)
    requires
        encode_program.ensures((&program, big_endian), output),
    ensures
        output@.len() == 8 * program@.len(),
        forall|i: int|
            0 <= i < program@.len() ==> laid_out(
                output@,
                8 * i,
                #[trigger] program@[i],
                big_endian,
            ),
{
    lemma_laid_out(program@, big_endian);
}

} // verus!
