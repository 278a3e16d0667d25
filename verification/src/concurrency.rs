use crate::backend::{answer, duplicate_variant};
use crate::complete_product::CompleteProductView;
use crate::composite::{
    advance, begin, link_or_seek, seek, ReplyView, Stage, StatementView, StepView,
};
use crate::error::{ErrorKind, StoreErrorView};
use crate::laws::lemma_count_named;
use crate::models::{LinkRow, ProductRow, VariantRow};
use crate::soundness::pending;
use crate::tables::Tables;
use vstd::prelude::*;

verus! {

// Two composite writes that run at once on one backend. Each writer runs
// its own transaction: the statements of the two are answered one at a
// time, in whatever order they arrive; a writer sees what is committed and
// what it has stored itself; a variant whose name the other writer has
// stored and not yet published makes it wait, as a unique index does; and
// what a writer has stored is published when it commits and gone when it
// rolls back.

/// The rows that a writer has stored inside its transaction and that nobody
/// else sees yet. Each link is kept with the place of the group that it was
/// stored for.
pub struct Unpublished {
    pub products: Seq<ProductRow>,
    pub variants: Seq<VariantRow>,
    pub links: Seq<(int, LinkRow)>,
}

/// One of two writers that each run one composite write: what it was
/// handed, how far it has come, what it has stored and not yet published,
/// and the links that it has published.
pub struct Writer {
    pub input: CompleteProductView,
    pub step: StepView,
    pub unpublished: Unpublished,
    pub published: Seq<(int, LinkRow)>,
}

/// The backend with two writers at work: the rows that are committed, with
/// the keys that come next, and the two writers.
pub struct World {
    pub committed: Tables,
    pub first: Writer,
    pub second: Writer,
}

/// What happens next: a writer has its statement run and takes the answer,
/// or its transaction fails for a reason of the backend's.
pub enum Move {
    Step { first: bool },
    Fail { first: bool, error: StoreErrorView },
}

/// No rows at all.
pub open spec fn nothing() -> Unpublished {
    Unpublished { products: Seq::empty(), variants: Seq::empty(), links: Seq::empty() }
}

/// The links without the places of their groups.
pub open spec fn bare(links: Seq<(int, LinkRow)>) -> Seq<LinkRow> {
    links.map_values(|tagged: (int, LinkRow)| tagged.1)
}

impl World {
    /// The first writer or the second.
    pub open spec fn writer(self, first: bool) -> Writer {
        if first {
            self.first
        } else {
            self.second
        }
    }

    /// The world with the first writer or the second replaced.
    pub open spec fn with_writer(self, first: bool, writer: Writer) -> World {
        if first {
            World { first: writer, ..self }
        } else {
            World { second: writer, ..self }
        }
    }

    /// Both writers have returned.
    pub open spec fn finished(self) -> bool {
        !(self.first.step is Run) && !(self.second.step is Run)
    }
}

/// The tables as a writer sees them: what is committed, and behind it what
/// the writer itself has stored.
pub open spec fn seen(committed: Tables, writer: Writer) -> Tables {
    Tables {
        products: committed.products + writer.unpublished.products,
        variants: committed.variants + writer.unpublished.variants,
        links: committed.links + bare(writer.unpublished.links),
        ..committed
    }
}

/// Whether a writer has to wait: it is about to store a variant whose name
/// the other writer has stored and not yet published. The backend lets it
/// go on once the other has committed or rolled back.
pub open spec fn waits(writer: Writer, other: Writer) -> bool {
    writer.step matches StepView::Run(_, StatementView::InsertVariant(name)) && named(
        other.unpublished.variants,
        name,
    )
}

/// Whether one of the variants has this name.
pub open spec fn named(variants: Seq<VariantRow>, name: Seq<char>) -> bool {
    exists|i: int| 0 <= i < variants.len() && (#[trigger] variants[i]).name == name
}

/// Whether one of the variants has this key and this name.
pub open spec fn has_row(variants: Seq<VariantRow>, id: int, name: Seq<char>) -> bool {
    exists|i: int|
        0 <= i < variants.len() && (#[trigger] variants[i]).id == id && variants[i].name == name
}

/// Whether no two of the variants have the same name.
pub open spec fn unique(variants: Seq<VariantRow>) -> bool {
    forall|i: int, j: int|
        0 <= i < j < variants.len() ==> (#[trigger] variants[i]).name != (
        #[trigger] variants[j]).name
}

/// Whether no variant of the one sequence has the name of one of the other.
pub open spec fn apart(a: Seq<VariantRow>, b: Seq<VariantRow>) -> bool {
    forall|i: int, j: int|
        0 <= i < a.len() && 0 <= j < b.len() ==> (#[trigger] a[i]).name != (#[trigger] b[j]).name
}

/// The two writers as they start on the committed tables.
pub open spec fn starting(
    committed: Tables,
    first: CompleteProductView,
    second: CompleteProductView,
) -> World {
    World {
        committed,
        first: Writer {
            input: first,
            step: begin(first),
            unpublished: nothing(),
            published: Seq::empty(),
        },
        second: Writer {
            input: second,
            step: begin(second),
            unpublished: nothing(),
            published: Seq::empty(),
        },
    }
}

/// What a writer has stored after the answer to its statement.
pub open spec fn grown(
    own: Unpublished,
    group: int,
    statement: StatementView,
    reply: ReplyView,
) -> Unpublished {
    match (statement, reply) {
        (_, ReplyView::ProductInserted(row)) => Unpublished {
            products: own.products.push(row),
            ..own
        },
        (_, ReplyView::VariantInserted(row)) => Unpublished {
            variants: own.variants.push(row),
            ..own
        },
        (StatementView::InsertLink(link), ReplyView::LinkInserted) => Unpublished {
            links: own.links.push((group, link)),
            ..own
        },
        _ => own,
    }
}

/// The committed tables and the writer once the writer has come to its
/// next step: where it commits, its rows are published behind those that
/// are committed; where it rolls back, its rows are gone.
pub open spec fn settle(committed: Tables, writer: Writer) -> (Tables, Writer) {
    match writer.step {
        StepView::Run(_, _) => (committed, writer),
        StepView::Commit(_) => (
            Tables {
                products: committed.products + writer.unpublished.products,
                variants: committed.variants + writer.unpublished.variants,
                links: committed.links + bare(writer.unpublished.links),
                ..committed
            },
            Writer { unpublished: nothing(), published: writer.unpublished.links, ..writer },
        ),
        StepView::Rollback(_) => (
            committed,
            Writer { unpublished: nothing(), published: Seq::empty(), ..writer },
        ),
    }
}

/// The committed tables and the writer after the statement of the writer
/// was run and the writer took the answer. The statement is answered on the
/// tables as the writer sees them. Keys that were given out stay given out,
/// whatever becomes of the transaction. A writer that has returned, or has
/// to wait for the other, does not move.
pub open spec fn stepped(committed: Tables, writer: Writer, other: Writer) -> (Tables, Writer) {
    match writer.step {
        StepView::Run(write, statement) => {
            if waits(writer, other) {
                (committed, writer)
            } else {
                let (after, reply) = answer(seen(committed, writer), statement);
                settle(
                    Tables {
                        next_product_id: after.next_product_id,
                        next_variant_id: after.next_variant_id,
                        ..committed
                    },
                    Writer {
                        step: advance(write, reply),
                        unpublished: grown(writer.unpublished, write.group, statement, reply),
                        ..writer
                    },
                )
            }
        },
        _ => (committed, writer),
    }
}

/// The committed tables and the writer after the transaction of the writer
/// failed for a reason of the backend's. A writer that has returned is left
/// as it is.
pub open spec fn failed(committed: Tables, writer: Writer, error: StoreErrorView) -> (
    Tables,
    Writer,
) {
    if writer.step is Run {
        settle(committed, Writer { step: StepView::Rollback(error), ..writer })
    } else {
        (committed, writer)
    }
}

/// The world after one move.
pub open spec fn moved(world: World, what: Move) -> World {
    match what {
        Move::Step { first } => {
            let (committed, writer) = stepped(
                world.committed,
                world.writer(first),
                world.writer(!first),
            );
            World { committed, ..world }.with_writer(first, writer)
        },
        Move::Fail { first, error } => {
            let (committed, writer) = failed(world.committed, world.writer(first), error);
            World { committed, ..world }.with_writer(first, writer)
        },
    }
}

/// The world after the moves, one after the other.
pub open spec fn after_moves(world: World, moves: Seq<Move>) -> World
    decreases moves.len(),
{
    if moves.len() == 0 {
        world
    } else {
        moved(after_moves(world, moves.drop_last()), moves.last())
    }
}

/// Whether a link carries the key of a variant that has the name of the
/// group that the link was stored for.
pub open spec fn tied(
    variants: Seq<VariantRow>,
    input: CompleteProductView,
    tagged: (int, LinkRow),
) -> bool {
    0 <= tagged.0 < input.variants.len() && has_row(
        variants,
        tagged.1.variant_id,
        input.variants[tagged.0].variant.name,
    )
}

/// How many groups a write has found or made the variant of.
pub open spec fn resolved(step: StepView) -> int {
    match step {
        StepView::Run(write, _) => match write.stage {
            Stage::Product => 0,
            Stage::Lookup | Stage::Variant => write.group,
            Stage::Link => write.group + 1,
        },
        _ => 0,
    }
}

/// What holds of a writer at every moment. While it runs, the variants of
/// the groups that it is done with are among those it sees, and every link
/// that it has stored carries the key of the variant that its group names.
/// Once it has committed, the same holds of the committed variants. Once it
/// has rolled back, it has left nothing.
pub open spec fn sound(committed: Seq<VariantRow>, writer: Writer) -> bool {
    let seen = committed + writer.unpublished.variants;
    match writer.step {
        StepView::Run(write, statement) => {
            &&& write.input == writer.input
            &&& write.wf()
            &&& statement == pending(write)
            &&& writer.published.len() == 0
            &&& write.stage == Stage::Link ==> has_row(
                seen,
                write.variant_id,
                writer.input.variants[write.group].variant.name,
            )
            &&& forall|k: int|
                0 <= k < writer.unpublished.links.len() ==> tied(
                    seen,
                    writer.input,
                    #[trigger] writer.unpublished.links[k],
                )
            &&& forall|g: int|
                0 <= g < resolved(writer.step) ==> named(
                    seen,
                    (#[trigger] writer.input.variants[g]).variant.name,
                )
        },
        StepView::Commit(_) => {
            &&& writer.unpublished == nothing()
            &&& forall|k: int|
                0 <= k < writer.published.len() ==> tied(
                    committed,
                    writer.input,
                    #[trigger] writer.published[k],
                )
            &&& forall|g: int|
                0 <= g < writer.input.variants.len() ==> named(
                    committed,
                    (#[trigger] writer.input.variants[g]).variant.name,
                )
        },
        StepView::Rollback(_) => {
            &&& writer.unpublished == nothing()
            &&& writer.published.len() == 0
        },
    }
}

/// What holds of the committed tables and the two writers at every
/// moment: no name occurs twice among the variants that are committed or
/// stored by either writer, and both writers are sound.
pub open spec fn steady_of(committed: Tables, one: Writer, other: Writer) -> bool {
    &&& unique(committed.variants)
    &&& unique(one.unpublished.variants)
    &&& unique(other.unpublished.variants)
    &&& apart(committed.variants, one.unpublished.variants)
    &&& apart(committed.variants, other.unpublished.variants)
    &&& apart(one.unpublished.variants, other.unpublished.variants)
    &&& sound(committed.variants, one)
    &&& sound(committed.variants, other)
}

/// What holds of the world at every moment.
pub open spec fn steady(world: World) -> bool {
    steady_of(world.committed, world.first, world.second)
}

/// Whether every variant of the one sequence is in the other.
pub open spec fn within(a: Seq<VariantRow>, b: Seq<VariantRow>) -> bool {
    forall|i: int| 0 <= i < a.len() ==> b.contains(#[trigger] a[i])
}

proof fn lemma_within_longer(a: Seq<VariantRow>, more: Seq<VariantRow>)
    ensures
        within(a, a + more),
{
    assert forall|i: int| 0 <= i < a.len() implies (a + more).contains(#[trigger] a[i]) by {
        assert((a + more)[i] == a[i]);
    }
}

proof fn lemma_within_middle(a: Seq<VariantRow>, middle: Seq<VariantRow>, b: Seq<VariantRow>)
    ensures
        within(a + b, (a + middle) + b),
{
    let wide = (a + middle) + b;
    assert forall|i: int| 0 <= i < (a + b).len() implies wide.contains(
        #[trigger] (a + b)[i],
    ) by {
        if i < a.len() {
            assert(wide[i] == (a + b)[i]);
        } else {
            assert(wide[i + middle.len()] == (a + b)[i]);
        }
    }
}

proof fn lemma_has_row_within(a: Seq<VariantRow>, b: Seq<VariantRow>, id: int, name: Seq<char>)
    requires
        within(a, b),
        has_row(a, id, name),
    ensures
        has_row(b, id, name),
{
    let i = choose|i: int| 0 <= i < a.len() && (#[trigger] a[i]).id == id && a[i].name == name;
    assert(b.contains(a[i]));
    let j = choose|j: int| 0 <= j < b.len() && b[j] == a[i];
    assert(b[j].id == id && b[j].name == name);
}

proof fn lemma_named_within(a: Seq<VariantRow>, b: Seq<VariantRow>, name: Seq<char>)
    requires
        within(a, b),
        named(a, name),
    ensures
        named(b, name),
{
    let i = choose|i: int| 0 <= i < a.len() && (#[trigger] a[i]).name == name;
    assert(b.contains(a[i]));
    let j = choose|j: int| 0 <= j < b.len() && b[j] == a[i];
    assert(b[j].name == name);
}

/// A writer that is sound stays so when variants are added to those that
/// it sees, wherever they are put.
proof fn lemma_sound_within(committed: Seq<VariantRow>, wider: Seq<VariantRow>, writer: Writer)
    requires
        sound(committed, writer),
        within(committed, wider),
        within(committed + writer.unpublished.variants, wider + writer.unpublished.variants),
    ensures
        sound(wider, writer),
{
    let seen = committed + writer.unpublished.variants;
    let more = wider + writer.unpublished.variants;
    match writer.step {
        StepView::Run(write, statement) => {
            if write.stage == Stage::Link {
                lemma_has_row_within(
                    seen,
                    more,
                    write.variant_id,
                    writer.input.variants[write.group].variant.name,
                );
            }
            assert forall|k: int| 0 <= k < writer.unpublished.links.len() implies tied(
                more,
                writer.input,
                #[trigger] writer.unpublished.links[k],
            ) by {
                let tagged = writer.unpublished.links[k];
                lemma_has_row_within(
                    seen,
                    more,
                    tagged.1.variant_id,
                    writer.input.variants[tagged.0].variant.name,
                );
            }
            assert forall|g: int| 0 <= g < resolved(writer.step) implies named(
                more,
                (#[trigger] writer.input.variants[g]).variant.name,
            ) by {
                lemma_named_within(seen, more, writer.input.variants[g].variant.name);
            }
        },
        StepView::Commit(_) => {
            assert forall|k: int| 0 <= k < writer.published.len() implies tied(
                wider,
                writer.input,
                #[trigger] writer.published[k],
            ) by {
                let tagged = writer.published[k];
                lemma_has_row_within(
                    committed,
                    wider,
                    tagged.1.variant_id,
                    writer.input.variants[tagged.0].variant.name,
                );
            }
            assert forall|g: int| 0 <= g < writer.input.variants.len() implies named(
                wider,
                (#[trigger] writer.input.variants[g]).variant.name,
            ) by {
                lemma_named_within(committed, wider, writer.input.variants[g].variant.name);
            }
        },
        StepView::Rollback(_) => {},
    }
}

/// What holds of a writer that has just taken an answer, before its rows
/// are published or dropped: as for a sound writer, except that one which
/// is about to commit or to roll back still has its rows.
pub open spec fn promising(committed: Seq<VariantRow>, writer: Writer) -> bool {
    let seen = committed + writer.unpublished.variants;
    match writer.step {
        StepView::Run(_, _) => sound(committed, writer),
        StepView::Commit(_) => {
            &&& forall|k: int|
                0 <= k < writer.unpublished.links.len() ==> tied(
                    seen,
                    writer.input,
                    #[trigger] writer.unpublished.links[k],
                )
            &&& forall|g: int|
                0 <= g < writer.input.variants.len() ==> named(
                    seen,
                    (#[trigger] writer.input.variants[g]).variant.name,
                )
        },
        StepView::Rollback(_) => true,
    }
}

/// A writer that goes on to the groups from `group` on, all groups before
/// it being done with, is promising.
proof fn lemma_seek_promising(
    committed: Seq<VariantRow>,
    writer: Writer,
    product_id: int,
    group: int,
)
    requires
        0 <= group <= writer.input.variants.len(),
        writer.published.len() == 0,
        writer.step == seek(writer.input, product_id, group),
        forall|k: int|
            0 <= k < writer.unpublished.links.len() ==> tied(
                committed + writer.unpublished.variants,
                writer.input,
                #[trigger] writer.unpublished.links[k],
            ),
        forall|g: int|
            0 <= g < group ==> named(
                committed + writer.unpublished.variants,
                (#[trigger] writer.input.variants[g]).variant.name,
            ),
    ensures
        promising(committed, writer),
{
}

/// A writer that goes on to the values from `value` on of the group at
/// `group`, whose variant it sees under the key `variant_id`, is promising.
proof fn lemma_link_or_seek_promising(
    committed: Seq<VariantRow>,
    writer: Writer,
    product_id: int,
    variant_id: int,
    group: int,
    value: int,
)
    requires
        0 <= group < writer.input.variants.len(),
        0 <= value <= writer.input.variants[group].values.len(),
        writer.published.len() == 0,
        writer.step == link_or_seek(writer.input, product_id, variant_id, group, value),
        has_row(
            committed + writer.unpublished.variants,
            variant_id,
            writer.input.variants[group].variant.name,
        ),
        forall|k: int|
            0 <= k < writer.unpublished.links.len() ==> tied(
                committed + writer.unpublished.variants,
                writer.input,
                #[trigger] writer.unpublished.links[k],
            ),
        forall|g: int|
            0 <= g < group ==> named(
                committed + writer.unpublished.variants,
                (#[trigger] writer.input.variants[g]).variant.name,
            ),
    ensures
        promising(committed, writer),
{
    let seen = committed + writer.unpublished.variants;
    let name = writer.input.variants[group].variant.name;
    let i = choose|i: int|
        0 <= i < seen.len() && (#[trigger] seen[i]).id == variant_id && seen[i].name == name;
    assert(seen[i].name == name);
    assert(named(seen, name));
    assert forall|g: int| 0 <= g < group + 1 implies named(
        seen,
        (#[trigger] writer.input.variants[g]).variant.name,
    ) by {
        if g == group {
        }
    }
    if 0 <= value < writer.input.variants[group].values.len() {
    } else {
        lemma_seek_promising(committed, writer, product_id, group + 1);
    }
}

/// A writer that is sound and does not have to wait is promising once its
/// statement was run and it took the answer, and what it has stored then
/// still shares no name with what is committed or with what the other
/// writer has stored.
proof fn lemma_answer_promising(committed: Tables, writer: Writer, other: Writer)
    requires
        steady_of(committed, writer, other),
        writer.step is Run,
        !waits(writer, other),
    ensures
        ({
            let write = writer.step->Run_0;
            let statement = writer.step->Run_1;
            let reply = answer(seen(committed, writer), statement).1;
            let next = Writer {
                step: advance(write, reply),
                unpublished: grown(writer.unpublished, write.group, statement, reply),
                ..writer
            };
            &&& promising(committed.variants, next)
            &&& next.published.len() == 0
            &&& unique(next.unpublished.variants)
            &&& apart(committed.variants, next.unpublished.variants)
            &&& apart(next.unpublished.variants, other.unpublished.variants)
        }),
{
    let write = writer.step->Run_0;
    let statement = writer.step->Run_1;
    let tables = seen(committed, writer);
    let reply = answer(tables, statement).1;
    let next = Writer {
        step: advance(write, reply),
        unpublished: grown(writer.unpublished, write.group, statement, reply),
        ..writer
    };
    let own = writer.unpublished.variants;
    let before = committed.variants + own;
    let name = writer.input.variants[write.group].variant.name;
    match write.stage {
        Stage::Product => {
            match reply {
                ReplyView::ProductInserted(row) => {
                    lemma_seek_promising(committed.variants, next, row.id, 0);
                },
                _ => {},
            }
        },
        Stage::Lookup => {
            match tables.find_variant(name) {
                Some(row) => {
                    let i = tables.variant_index_named(name);
                    assert(before[i].id == row.id && before[i].name == name);
                    lemma_link_or_seek_promising(
                        committed.variants,
                        next,
                        write.product_id,
                        row.id,
                        write.group,
                        0,
                    );
                },
                None => {},
            }
        },
        Stage::Variant => {
            match reply {
                ReplyView::VariantInserted(row) => {
                    let after = committed.variants + own.push(row);
                    assert(after =~= before + seq![row]);
                    lemma_within_longer(before, seq![row]);
                    assert(!tables.has_variant_named(name));
                    assert forall|i: int| 0 <= i < before.len() implies (#[trigger] before[i]).name
                        != name by {
                        assert(tables.variants[i] == before[i]);
                    }
                    assert forall|i: int, j: int| 0 <= i < j < own.push(row).len() implies (
                    #[trigger] own.push(row)[i]).name != (#[trigger] own.push(row)[j]).name by {
                        if j == own.len() {
                            assert(before[committed.variants.len() + i] == own[i]);
                        }
                    }
                    assert forall|i: int, j: int|
                        0 <= i < committed.variants.len() && 0 <= j < own.push(
                            row,
                        ).len() implies (#[trigger] committed.variants[i]).name != (
                    #[trigger] own.push(row)[j]).name by {
                        if j == own.len() {
                            assert(before[i] == committed.variants[i]);
                        }
                    }
                    assert(after[before.len() as int] == row);
                    assert(has_row(after, row.id, name));
                    assert forall|k: int| 0 <= k < next.unpublished.links.len() implies tied(
                        after,
                        next.input,
                        #[trigger] next.unpublished.links[k],
                    ) by {
                        let tagged = writer.unpublished.links[k];
                        lemma_has_row_within(
                            before,
                            after,
                            tagged.1.variant_id,
                            writer.input.variants[tagged.0].variant.name,
                        );
                    }
                    assert forall|g: int| 0 <= g < write.group implies named(
                        after,
                        (#[trigger] next.input.variants[g]).variant.name,
                    ) by {
                        lemma_named_within(before, after, writer.input.variants[g].variant.name);
                    }
                    lemma_link_or_seek_promising(
                        committed.variants,
                        next,
                        write.product_id,
                        row.id,
                        write.group,
                        0,
                    );
                },
                _ => {},
            }
        },
        Stage::Link => {
            match reply {
                ReplyView::LinkInserted => {
                    assert forall|k: int| 0 <= k < next.unpublished.links.len() implies tied(
                        before,
                        next.input,
                        #[trigger] next.unpublished.links[k],
                    ) by {
                        if k < writer.unpublished.links.len() {
                            assert(next.unpublished.links[k] == writer.unpublished.links[k]);
                        }
                    }
                    assert forall|g: int| 0 <= g < write.group implies named(
                        before,
                        (#[trigger] next.input.variants[g]).variant.name,
                    ) by {
                        assert(g < resolved(writer.step));
                    }
                    lemma_link_or_seek_promising(
                        committed.variants,
                        next,
                        write.product_id,
                        write.variant_id,
                        write.group,
                        write.value + 1,
                    );
                },
                _ => {},
            }
        },
    }
}

/// When a promising writer publishes or drops its rows, or goes on, the
/// committed tables and the two writers are steady.
proof fn lemma_settle_steady(committed: Tables, writer: Writer, other: Writer)
    requires
        unique(committed.variants),
        unique(writer.unpublished.variants),
        unique(other.unpublished.variants),
        apart(committed.variants, writer.unpublished.variants),
        apart(committed.variants, other.unpublished.variants),
        apart(writer.unpublished.variants, other.unpublished.variants),
        promising(committed.variants, writer),
        writer.published.len() == 0,
        sound(committed.variants, other),
    ensures
        steady_of(settle(committed, writer).0, settle(committed, writer).1, other),
{
    let (after, settled) = settle(committed, writer);
    let own = writer.unpublished.variants;
    match writer.step {
        StepView::Run(_, _) => {},
        StepView::Commit(_) => {
            assert(after.variants == committed.variants + own);
            assert forall|i: int, j: int| 0 <= i < j < after.variants.len() implies (
            #[trigger] after.variants[i]).name != (#[trigger] after.variants[j]).name by {
                let n = committed.variants.len();
                if j < n {
                    assert(after.variants[i] == committed.variants[i]);
                    assert(after.variants[j] == committed.variants[j]);
                } else if i < n {
                    assert(after.variants[i] == committed.variants[i]);
                    assert(after.variants[j] == own[j - n]);
                } else {
                    assert(after.variants[i] == own[i - n]);
                    assert(after.variants[j] == own[j - n]);
                }
            }
            assert forall|i: int, j: int|
                0 <= i < after.variants.len() && 0 <= j
                    < other.unpublished.variants.len() implies (#[trigger] after.variants[i]).name
                != (#[trigger] other.unpublished.variants[j]).name by {
                let n = committed.variants.len();
                if i < n {
                    assert(after.variants[i] == committed.variants[i]);
                } else {
                    assert(after.variants[i] == own[i - n]);
                }
            }
            assert(after.variants + settled.unpublished.variants =~= after.variants);
            lemma_within_longer(committed.variants, own);
            lemma_within_middle(committed.variants, own, other.unpublished.variants);
            lemma_sound_within(committed.variants, after.variants, other);
        },
        StepView::Rollback(_) => {},
    }
}

/// Whatever a writer does next, the committed tables and the two writers
/// stay steady.
pub proof fn lemma_stepped_steady(committed: Tables, writer: Writer, other: Writer)
    requires
        steady_of(committed, writer, other),
    ensures
        steady_of(
            stepped(committed, writer, other).0,
            stepped(committed, writer, other).1,
            other,
        ),
{
    if writer.step is Run && !waits(writer, other) {
        let write = writer.step->Run_0;
        let statement = writer.step->Run_1;
        let (after, reply) = answer(seen(committed, writer), statement);
        let counted = Tables {
            next_product_id: after.next_product_id,
            next_variant_id: after.next_variant_id,
            ..committed
        };
        let next = Writer {
            step: advance(write, reply),
            unpublished: grown(writer.unpublished, write.group, statement, reply),
            ..writer
        };
        lemma_answer_promising(committed, writer, other);
        lemma_settle_steady(counted, next, other);
    }
}

/// When the transaction of a writer fails, the committed tables and the two
/// writers stay steady.
pub proof fn lemma_failed_steady(
    committed: Tables,
    writer: Writer,
    other: Writer,
    error: StoreErrorView,
)
    requires
        steady_of(committed, writer, other),
    ensures
        steady_of(
            failed(committed, writer, error).0,
            failed(committed, writer, error).1,
            other,
        ),
{
}

/// The two writers are steady as they start on tables whose variants have
/// different names.
pub proof fn lemma_starting_steady(
    committed: Tables,
    first: CompleteProductView,
    second: CompleteProductView,
)
    requires
        committed.names_unique(),
    ensures
        steady(starting(committed, first, second)),
{
}

/// One move leaves the world steady.
pub proof fn lemma_moved_steady(world: World, what: Move)
    requires
        steady(world),
    ensures
        steady(moved(world, what)),
{
    match what {
        Move::Step { first } => {
            if first {
                lemma_stepped_steady(world.committed, world.first, world.second);
            } else {
                lemma_stepped_steady(world.committed, world.second, world.first);
            }
        },
        Move::Fail { first, error } => {
            if first {
                lemma_failed_steady(world.committed, world.first, world.second, error);
            } else {
                lemma_failed_steady(world.committed, world.second, world.first, error);
            }
        },
    }
}

/// However the statements of two composite writes that run at once are
/// interleaved, and whenever either transaction fails, the world is steady
/// at every moment.
pub proof fn law_world_stays_steady(
    committed: Tables,
    first: CompleteProductView,
    second: CompleteProductView,
    moves: Seq<Move>,
)
    requires
        committed.names_unique(),
    ensures
        steady(after_moves(starting(committed, first, second), moves)),
    decreases moves.len(),
{
    if moves.len() == 0 {
        lemma_starting_steady(committed, first, second);
    } else {
        law_world_stays_steady(committed, first, second, moves.drop_last());
        lemma_moved_steady(
            after_moves(starting(committed, first, second), moves.drop_last()),
            moves.last(),
        );
    }
}

/// Two composite writes that run at once, interleaved in whatever way,
/// leave at most one committed variant of any name. A write that has
/// committed has left exactly one committed variant for the name of each
/// of its groups, and every link that it has published carries the key of
/// the one variant that has the name of the link's group, whichever of the
/// two writers stored that variant.
pub proof fn law_concurrent_writes_one_variant(
    committed: Tables,
    first: CompleteProductView,
    second: CompleteProductView,
    moves: Seq<Move>,
    by_first: bool,
    group: int,
)
    requires
        committed.names_unique(),
    ensures
        ({
            let world = after_moves(starting(committed, first, second), moves);
            let writer = world.writer(by_first);
            let name = writer.input.variants[group].variant.name;
            &&& world.committed.names_unique()
            &&& forall|any: Seq<char>| #[trigger] world.committed.count_variants_named(any) <= 1
            &&& writer.step is Commit && 0 <= group < writer.input.variants.len() ==> {
                &&& world.committed.count_variants_named(name) == 1
                &&& world.committed.find_variant(name) matches Some(row) && forall|k: int|
                    0 <= k < writer.published.len() && (#[trigger] writer.published[k]).0
                        == group ==> writer.published[k].1.variant_id == row.id
            }
        }),
{
    let world = after_moves(starting(committed, first, second), moves);
    let writer = world.writer(by_first);
    let name = writer.input.variants[group].variant.name;
    law_world_stays_steady(committed, first, second, moves);
    assert forall|any: Seq<char>| #[trigger] world.committed.count_variants_named(any) <= 1 by {
        lemma_count_named(world.committed, any);
    }
    if writer.step is Commit && 0 <= group < writer.input.variants.len() {
        lemma_count_named(world.committed, name);
        assert(named(world.committed.variants, writer.input.variants[group].variant.name));
        let found = world.committed.variant_index_named(name);
        assert(world.committed.variants[found].name == name);
        let row = world.committed.variants[found];
        assert forall|k: int|
            0 <= k < writer.published.len() && (#[trigger] writer.published[k]).0
                == group implies writer.published[k].1.variant_id == row.id by {
            let tagged = writer.published[k];
            assert(tied(world.committed.variants, writer.input, tagged));
            let i = choose|i: int|
                0 <= i < world.committed.variants.len() && (
                #[trigger] world.committed.variants[i]).id == tagged.1.variant_id
                    && world.committed.variants[i].name == name;
            if i < found {
                assert(world.committed.variants[i].name != world.committed.variants[found].name);
            }
            if found < i {
                assert(world.committed.variants[found].name != world.committed.variants[i].name);
            }
        }
    }
}

/// The rows of a writer become visible only when it commits: a move after
/// which the writer has not committed leaves the committed rows as they
/// were, and a writer that has rolled back has published nothing.
pub proof fn law_only_commit_publishes(committed: Tables, writer: Writer, other: Writer)
    requires
        writer.step is Run ==> !(stepped(committed, writer, other).1.step is Commit),
    ensures
        stepped(committed, writer, other).0.products == committed.products,
        stepped(committed, writer, other).0.variants == committed.variants,
        stepped(committed, writer, other).0.links == committed.links,
        writer.step is Run && stepped(committed, writer, other).1.step is Rollback ==> stepped(
            committed,
            writer,
            other,
        ).1.published.len() == 0 && stepped(committed, writer, other).1.unpublished == nothing(),
{
}

/// A writer that comes to store a variant whose name has been committed
/// in the meantime loses: its write ends with a conflict, and nothing of
/// it is published.
pub proof fn law_late_writer_gets_conflict(committed: Tables, writer: Writer, other: Writer)
    requires
        writer.step matches StepView::Run(_, StatementView::InsertVariant(name)) && named(
            committed.variants,
            name,
        ),
        !waits(writer, other),
    ensures
        stepped(committed, writer, other).1.step == StepView::Rollback(duplicate_variant()),
        duplicate_variant().kind == ErrorKind::Conflict,
        stepped(committed, writer, other).1.published.len() == 0,
        stepped(committed, writer, other).0.products == committed.products,
        stepped(committed, writer, other).0.variants == committed.variants,
        stepped(committed, writer, other).0.links == committed.links,
{
    let name = writer.step->Run_1->InsertVariant_0;
    let tables = seen(committed, writer);
    let i = choose|i: int|
        0 <= i < committed.variants.len() && (#[trigger] committed.variants[i]).name == name;
    assert(tables.variants[i].name == name);
    assert(tables.has_variant_named(name));
}

} // verus!
