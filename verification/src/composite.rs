use crate::complete_product::{CompleteProduct, CompleteProductView};
use crate::error::{ErrorKind, StoreError, StoreErrorView};
use crate::models::{
    LinkRow, NewProductModel, NewProductRow, NewVariantModel, ProductModel, ProductRow,
    ProductVariantModel, VariantModel, VariantRow,
};
use crate::product_variant::ProductVariantView;
use vstd::prelude::*;

verus! {

/// One statement for the backend to run inside the transaction.
#[derive(Debug)]
pub enum Statement {
    /// Store the product and answer with its row.
    InsertProduct(NewProductModel),
    /// Look for the variant with exactly this name and answer with its row,
    /// if there is one.
    FindVariant(String),
    /// Store the variant and answer with its row.
    InsertVariant(NewVariantModel),
    /// Store the link.
    InsertLink(ProductVariantModel),
}

/// A [`Statement`], as mathematical values.
pub enum StatementView {
    InsertProduct(NewProductRow),
    FindVariant(Seq<char>),
    InsertVariant(Seq<char>),
    InsertLink(LinkRow),
}

impl View for Statement {
    type V = StatementView;

    open spec fn view(&self) -> StatementView {
        match self {
            Statement::InsertProduct(new) => StatementView::InsertProduct(new@),
            Statement::FindVariant(name) => StatementView::FindVariant(name@),
            Statement::InsertVariant(new) => StatementView::InsertVariant(new@),
            Statement::InsertLink(link) => StatementView::InsertLink(link@),
        }
    }
}

/// What the backend answered to a statement.
#[derive(Debug)]
pub enum Reply {
    ProductInserted(ProductModel),
    VariantLookup(Option<VariantModel>),
    VariantInserted(VariantModel),
    LinkInserted,
    Failed(StoreError),
}

/// A [`Reply`], as mathematical values.
pub enum ReplyView {
    ProductInserted(ProductRow),
    VariantLookup(Option<VariantRow>),
    VariantInserted(VariantRow),
    LinkInserted,
    Failed(StoreErrorView),
}

impl View for Reply {
    type V = ReplyView;

    open spec fn view(&self) -> ReplyView {
        match self {
            Reply::ProductInserted(row) => ReplyView::ProductInserted(row@),
            Reply::VariantLookup(Some(row)) => ReplyView::VariantLookup(Some(row@)),
            Reply::VariantLookup(None) => ReplyView::VariantLookup(None),
            Reply::VariantInserted(row) => ReplyView::VariantInserted(row@),
            Reply::LinkInserted => ReplyView::LinkInserted,
            Reply::Failed(error) => ReplyView::Failed(error@),
        }
    }
}

/// Which answer a composite write is waiting for.
#[derive(Clone, Copy, Debug, PartialEq, Eq, Structural)]
pub enum Stage {
    /// The row of the product.
    Product,
    /// The variant of the current group, looked for by name.
    Lookup,
    /// The row of the variant of the current group, which did not exist.
    Variant,
    /// The link for the current value of the current group.
    Link,
}

/// A composite write in progress, as mathematical values. `group` and
/// `value` say how far it has come; the keys are zero until they are known.
pub struct CompositeWriteView {
    pub input: CompleteProductView,
    pub stage: Stage,
    pub product_id: int,
    pub variant_id: int,
    pub group: int,
    pub value: int,
}

impl CompositeWriteView {
    pub open spec fn wf(self) -> bool {
        match self.stage {
            Stage::Product => true,
            Stage::Lookup | Stage::Variant => 0 <= self.group < self.input.variants.len(),
            Stage::Link => {
                &&& 0 <= self.group < self.input.variants.len()
                &&& 0 <= self.value < self.input.variants[self.group].values.len()
            },
        }
    }
}

/// How a composite write goes on.
pub enum StepView {
    /// The backend is to run the statement, and its answer is to be handed
    /// to the composite write.
    Run(CompositeWriteView, StatementView),
    /// All is stored: the transaction is to be committed, and the key of the
    /// product is the result.
    Commit(int),
    /// The transaction is to be rolled back, and the error is the result.
    Rollback(StoreErrorView),
}

/// The error for a product that breaks a field constraint.
pub open spec fn invalid_product() -> StoreErrorView {
    StoreErrorView {
        kind: ErrorKind::Validation,
        detail: "a product needs a name and a cost that is not negative"@,
    }
}

/// The error for an answer that does not belong to the statement.
pub open spec fn unexpected_reply() -> StoreErrorView {
    StoreErrorView {
        kind: ErrorKind::Persistence,
        detail: "the answer of the backend does not fit the statement"@,
    }
}

/// The step that starts with the group at `group`: the lookup of its
/// variant, or the commit where no group is left.
pub open spec fn seek(input: CompleteProductView, product_id: int, group: int) -> StepView {
    if 0 <= group < input.variants.len() {
        StepView::Run(
            CompositeWriteView {
                input,
                stage: Stage::Lookup,
                product_id,
                variant_id: 0,
                group,
                value: 0,
            },
            StatementView::FindVariant(input.variants[group].variant.name),
        )
    } else {
        StepView::Commit(product_id)
    }
}

/// The step that starts with the value at `value` of the group at `group`,
/// whose variant has the key `variant_id`: the link for that value, or the
/// next group where no value is left.
pub open spec fn link_or_seek(
    input: CompleteProductView,
    product_id: int,
    variant_id: int,
    group: int,
    value: int,
) -> StepView {
    if 0 <= value < input.variants[group].values.len() {
        StepView::Run(
            CompositeWriteView { input, stage: Stage::Link, product_id, variant_id, group, value },
            StatementView::InsertLink(
                ProductVariantView {
                    product_id,
                    variant_id,
                    value: input.variants[group].values[value],
                },
            ),
        )
    } else {
        seek(input, product_id, group + 1)
    }
}

/// The first step of a composite write: a product that breaks a field
/// constraint is refused before anything is written; otherwise the product
/// is stored first. A key that the product brings along is not used.
pub open spec fn begin(input: CompleteProductView) -> StepView {
    if input.product.valid() {
        StepView::Run(
            CompositeWriteView {
                input,
                stage: Stage::Product,
                product_id: 0,
                variant_id: 0,
                group: 0,
                value: 0,
            },
            StatementView::InsertProduct(
                NewProductRow {
                    name: input.product.name,
                    cost: input.product.cost,
                    active: input.product.active,
                },
            ),
        )
    } else {
        StepView::Rollback(invalid_product())
    }
}

/// The step after the backend answered. A failure ends the write with that
/// failure, and so does an answer that does not belong to the statement.
/// After the product come the groups in their order; for each, its variant
/// is looked for and stored only where it was not found, and then each of
/// its values is linked, in their order and as often as it occurs.
pub open spec fn advance(write: CompositeWriteView, reply: ReplyView) -> StepView {
    match (write.stage, reply) {
        (_, ReplyView::Failed(error)) => StepView::Rollback(error),
        (Stage::Product, ReplyView::ProductInserted(row)) => seek(write.input, row.id, 0),
        (Stage::Lookup, ReplyView::VariantLookup(Some(row))) => link_or_seek(
            write.input,
            write.product_id,
            row.id,
            write.group,
            0,
        ),
        (Stage::Lookup, ReplyView::VariantLookup(None)) => StepView::Run(
            CompositeWriteView { stage: Stage::Variant, ..write },
            StatementView::InsertVariant(write.input.variants[write.group].variant.name),
        ),
        (Stage::Variant, ReplyView::VariantInserted(row)) => link_or_seek(
            write.input,
            write.product_id,
            row.id,
            write.group,
            0,
        ),
        (Stage::Link, ReplyView::LinkInserted) => link_or_seek(
            write.input,
            write.product_id,
            write.variant_id,
            write.group,
            write.value + 1,
        ),
        _ => StepView::Rollback(unexpected_reply()),
    }
}

/// A composite write in progress: the decisions of storing a product
/// together with its variants and their values. It says which statement the
/// backend is to run next and takes the answer; whoever owns the connection
/// runs the statements inside one transaction.
pub struct CompositeWrite {
    input: CompleteProduct,
    stage: Stage,
    product_id: i32,
    variant_id: i32,
    group: usize,
    value: usize,
}

impl View for CompositeWrite {
    type V = CompositeWriteView;

    closed spec fn view(&self) -> CompositeWriteView {
        CompositeWriteView {
            input: self.input@,
            stage: self.stage,
            product_id: self.product_id as int,
            variant_id: self.variant_id as int,
            group: self.group as int,
            value: self.value as int,
        }
    }
}

/// How a composite write goes on.
pub enum Step {
    /// The backend is to run the statement, and its answer is to be handed
    /// to the composite write.
    Run(CompositeWrite, Statement),
    /// All is stored: the transaction is to be committed, and the key of the
    /// product is the result.
    Commit(i32),
    /// The transaction is to be rolled back, and the error is the result.
    Rollback(StoreError),
}

impl View for Step {
    type V = StepView;

    open spec fn view(&self) -> StepView {
        match self {
            Step::Run(write, statement) => StepView::Run(write@, statement@),
            Step::Commit(id) => StepView::Commit(*id as int),
            Step::Rollback(error) => StepView::Rollback(error@),
        }
    }
}

impl StepView {
    pub open spec fn wf(self) -> bool {
        self matches StepView::Run(write, _) ==> write.wf()
    }
}

impl CompositeWrite {
    /// The place that a write has come to always lies inside its input.
    #[verifier::type_invariant]
    spec fn placed(&self) -> bool {
        self@.wf()
    }

    /// Starts a composite write.
    pub fn begin(input: CompleteProduct) -> (step: Step)
        ensures
            step@ == begin(input@),
            step@.wf(),
    {
        if input.product().is_valid() {
            let new = NewProductModel {
                name: input.product().name().to_owned(),
                cost: input.product().cost(),
                active: input.product().active(),
            };
            let write = CompositeWrite {
                input,
                stage: Stage::Product,
                product_id: 0,
                variant_id: 0,
                group: 0,
                value: 0,
            };
            Step::Run(write, Statement::InsertProduct(new))
        } else {
            Step::Rollback(
                StoreError::new(
                    ErrorKind::Validation,
                    "a product needs a name and a cost that is not negative".to_owned(),
                ),
            )
        }
    }

    fn seek(input: CompleteProduct, product_id: i32, group: usize) -> (step: Step)
        ensures
            step@ == seek(input@, product_id as int, group as int),
            step@.wf(),
    {
        if group < input.variants().len() {
            let name = input.variants()[group].variant().name().to_owned();
            let write = CompositeWrite {
                input,
                stage: Stage::Lookup,
                product_id,
                variant_id: 0,
                group,
                value: 0,
            };
            Step::Run(write, Statement::FindVariant(name))
        } else {
            Step::Commit(product_id)
        }
    }

    fn link_or_seek(
        input: CompleteProduct,
        product_id: i32,
        variant_id: i32,
        group: usize,
        value: usize,
    ) -> (step: Step)
        requires
            group < input@.variants.len(),
        ensures
            step@ == link_or_seek(
                input@,
                product_id as int,
                variant_id as int,
                group as int,
                value as int,
            ),
            step@.wf(),
    {
        if value < input.variants()[group].values().len() {
            let link = ProductVariantModel {
                product_id,
                variant_id,
                value: match &input.variants()[group].values()[value] {
                    Some(s) => Some(s.clone()),
                    None => None,
                },
            };
            let write = CompositeWrite {
                input,
                stage: Stage::Link,
                product_id,
                variant_id,
                group,
                value,
            };
            Step::Run(write, Statement::InsertLink(link))
        } else {
            CompositeWrite::seek(input, product_id, group + 1)
        }
    }

    /// Takes the answer of the backend to the statement that was handed out
    /// last, and says how the write goes on.
    pub fn advance(self, reply: Reply) -> (step: Step)
        ensures
            step@ == advance(self@, reply@),
            step@.wf(),
    {
        proof {
            use_type_invariant(&self);
        }
        match (self.stage, reply) {
            (_, Reply::Failed(error)) => Step::Rollback(error),
            (Stage::Product, Reply::ProductInserted(row)) => CompositeWrite::seek(
                self.input,
                row.id,
                0,
            ),
            (Stage::Lookup, Reply::VariantLookup(Some(row))) => CompositeWrite::link_or_seek(
                self.input,
                self.product_id,
                row.id,
                self.group,
                0,
            ),
            (Stage::Lookup, Reply::VariantLookup(None)) => {
                let name = self.input.variants()[self.group].variant().name().to_owned();
                let write = CompositeWrite {
                    input: self.input,
                    stage: Stage::Variant,
                    product_id: self.product_id,
                    variant_id: self.variant_id,
                    group: self.group,
                    value: self.value,
                };
                Step::Run(write, Statement::InsertVariant(NewVariantModel { name }))
            },
            (Stage::Variant, Reply::VariantInserted(row)) => CompositeWrite::link_or_seek(
                self.input,
                self.product_id,
                row.id,
                self.group,
                0,
            ),
            (Stage::Link, Reply::LinkInserted) => {
                let count = self.input.variants()[self.group].values().len();
                assert(self.value < count);
                let next = self.value + 1;
                CompositeWrite::link_or_seek(
                    self.input,
                    self.product_id,
                    self.variant_id,
                    self.group,
                    next,
                )
            },
            _ => Step::Rollback(
                StoreError::new(
                    ErrorKind::Persistence,
                    "the answer of the backend does not fit the statement".to_owned(),
                ),
            ),
        }
    }
}

} // verus!
