//! Row-level value types: identifiers, cells, rows, row metadata, ordering
//! descriptors, and the derived meta-document identifiers.

use vstd::prelude::*;

verus! {

/// Identifier of one row. Row identifiers are UUID-shaped opaque strings,
/// unique within one workspace and user scope.
#[derive(Debug)]
pub struct RowId {
    id: String,
}

impl View for RowId {
    type V = Seq<char>;

    closed spec fn view(&self) -> Seq<char> {
        self.id@
    }
}

impl Clone for RowId {
    fn clone(&self) -> (r: Self)
        ensures
            r@ == self@,
    {
        RowId { id: self.id.clone() }
    }
}

impl RowId {
    pub fn new(id: String) -> (r: Self)
        ensures
            r@ == id@,
    {
        RowId { id }
    }

    pub fn as_str(&self) -> (r: &str)
        ensures
            r@ == self@,
    {
        self.id.as_str()
    }

    pub fn eq_str(&self, other: &str) -> (r: bool)
        ensures
            r == (self@ == other@),
    {
        crate::text::str_eq(self.id.as_str(), other)
    }

    pub fn eq_id(&self, other: &RowId) -> (r: bool)
        ensures
            r == (self@ == other@),
    {
        self.id == other.id
    }
}

/// One cell of a row, keyed by the field it belongs to.
#[derive(Debug)]
pub struct Cell {
    pub field_id: String,
    pub data: String,
}

impl Clone for Cell {
    fn clone(&self) -> (r: Self)
        ensures
            r@ == self@,
    {
        Cell { field_id: self.field_id.clone(), data: self.data.clone() }
    }
}

/// The abstract value of a cell: its field identifier and its content.
pub struct CellView {
    pub field_id: Seq<char>,
    pub data: Seq<char>,
}

impl View for Cell {
    type V = CellView;

    open spec fn view(&self) -> CellView {
        CellView { field_id: self.field_id@, data: self.data@ }
    }
}

/// The abstract value of a row.
pub struct RowView {
    pub id: Seq<char>,
    pub height: i32,
    pub visibility: bool,
    pub cells: Seq<CellView>,
}

impl RowView {
    /// The row with the given identifier and no cells.
    pub open spec fn empty(id: Seq<char>) -> RowView {
        RowView { id, height: 60, visibility: true, cells: Seq::empty() }
    }
}

/// One row of a database: identifier, display height, visibility and cells.
#[derive(Debug)]
pub struct Row {
    pub id: RowId,
    pub height: i32,
    pub visibility: bool,
    pub cells: Vec<Cell>,
}

impl View for Row {
    type V = RowView;

    open spec fn view(&self) -> RowView {
        RowView {
            id: self.id@,
            height: self.height,
            visibility: self.visibility,
            cells: self.cells@.map_values(|c: Cell| c@),
        }
    }
}

impl Clone for Row {
    fn clone(&self) -> (r: Self)
        ensures
            r@ == self@,
    {
        let mut cells: Vec<Cell> = Vec::new();
        let mut i: usize = 0;
        while i < self.cells.len()
            invariant
                i <= self.cells.len(),
                cells@.len() == i as int,
                forall|j: int| 0 <= j < i ==> cells@[j]@ == self.cells@[j]@,
            decreases self.cells.len() - i,
        {
            cells.push(self.cells[i].clone());
            i = i + 1;
        }
        let r = Row {
            id: self.id.clone(),
            height: self.height,
            visibility: self.visibility,
            cells,
        };
        proof {
            assert(r@.cells =~= self@.cells);
        }
        r
    }
}

impl Row {
    /// An empty row: the given identifier, default height, no cells.
    pub fn empty(id: RowId) -> (r: Self)
        ensures
            r@ == RowView::empty(id@),
    {
        let r = Row { id, height: 60, visibility: true, cells: Vec::new() };
        proof {
            assert(r@.cells =~= RowView::empty(r.id@).cells);
        }
        r
    }

    /// The first cell of the given field, if the row has one.
    pub open spec fn spec_cell(self, field_id: Seq<char>) -> Option<CellView> {
        spec_cell_in(self@.cells, field_id)
    }

    /// Looks up the cell of the given field.
    pub fn get_cell(&self, field_id: &str) -> (r: Option<Cell>)
        ensures
            match r {
                Some(c) => self.spec_cell(field_id@) == Some(c@),
                None => self.spec_cell(field_id@) is None,
            },
    {
        let ghost cells: Seq<CellView> = self@.cells;
        let mut i: usize = 0;
        while i < self.cells.len()
            invariant
                i <= self.cells.len(),
                cells == self@.cells,
                cells.len() == self.cells@.len(),
                forall|j: int| 0 <= j < cells.len() ==> cells[j] == self.cells@[j]@,
                forall|j: int| 0 <= j < i ==> cells[j].field_id != field_id@,
            decreases self.cells.len() - i,
        {
            if crate::text::str_eq(self.cells[i].field_id.as_str(), field_id) {
                let c = self.cells[i].clone();
                proof {
                    lemma_spec_cell_found(cells, field_id@, i as int);
                }
                return Some(c);
            }
            i = i + 1;
        }
        proof {
            lemma_spec_cell_absent(cells, field_id@);
        }
        None
    }
}

/// The first cell in `cells` whose field identifier is `field_id`.
pub open spec fn spec_cell_in(cells: Seq<CellView>, field_id: Seq<char>) -> Option<CellView>
    decreases cells.len(),
{
    if cells.len() == 0 {
        None
    } else if cells[0].field_id == field_id {
        Some(cells[0])
    } else {
        spec_cell_in(cells.drop_first(), field_id)
    }
}

proof fn lemma_spec_cell_found(cells: Seq<CellView>, field_id: Seq<char>, i: int)
    requires
        0 <= i < cells.len(),
        cells[i].field_id == field_id,
        forall|j: int| 0 <= j < i ==> cells[j].field_id != field_id,
    ensures
        spec_cell_in(cells, field_id) == Some(cells[i]),
    decreases i,
{
    if i == 0 {
    } else {
        assert(cells.drop_first()[i - 1] == cells[i]);
        assert(forall|j: int| 0 <= j < i - 1 ==> cells.drop_first()[j] == cells[j + 1]);
        lemma_spec_cell_found(cells.drop_first(), field_id, i - 1);
    }
}

proof fn lemma_spec_cell_absent(cells: Seq<CellView>, field_id: Seq<char>)
    requires
        forall|j: int| 0 <= j < cells.len() ==> cells[j].field_id != field_id,
    ensures
        spec_cell_in(cells, field_id) is None,
    decreases cells.len(),
{
    if cells.len() > 0 {
        assert(forall|j: int|
            0 <= j < cells.drop_first().len() ==> cells.drop_first()[j] == cells[j + 1]);
        lemma_spec_cell_absent(cells.drop_first(), field_id);
    }
}

/// Metadata attached to a row besides its cells.
#[derive(Debug)]
pub struct RowMeta {
    pub icon_url: Option<String>,
    pub cover_url: Option<String>,
}

impl Clone for RowMeta {
    fn clone(&self) -> (r: Self)
        ensures
            r@ == self@,
    {
        let icon_url = match &self.icon_url {
            Some(s) => Some(s.clone()),
            None => None,
        };
        let cover_url = match &self.cover_url {
            Some(s) => Some(s.clone()),
            None => None,
        };
        RowMeta { icon_url, cover_url }
    }
}

/// The abstract value of row metadata.
pub struct RowMetaView {
    pub icon_url: Option<Seq<char>>,
    pub cover_url: Option<Seq<char>>,
}

impl View for RowMeta {
    type V = RowMetaView;

    open spec fn view(&self) -> RowMetaView {
        RowMetaView {
            icon_url: match self.icon_url {
                Some(s) => Some(s@),
                None => None,
            },
            cover_url: match self.cover_url {
                Some(s) => Some(s@),
                None => None,
            },
        }
    }
}

impl RowMetaView {
    /// The metadata value with no icon and no cover.
    pub open spec fn empty() -> RowMetaView {
        RowMetaView { icon_url: None, cover_url: None }
    }
}

impl RowMeta {
    /// Metadata with no icon and no cover.
    pub fn empty() -> (r: Self)
        ensures
            r@ == RowMetaView::empty(),
    {
        RowMeta { icon_url: None, cover_url: None }
    }
}

/// Ordering descriptor of a row: its identifier and display height, as kept
/// by a view's ordering structure.
#[derive(Debug)]
pub struct RowOrder {
    pub id: RowId,
    pub height: i32,
}

impl Clone for RowOrder {
    fn clone(&self) -> (r: Self)
        ensures
            r.id@ == self.id@,
            r.height == self.height,
    {
        RowOrder { id: self.id.clone(), height: self.height }
    }
}

/// A fetched row together with its metadata, as delivered by a fetch event.
#[derive(Debug)]
pub struct RowDetail {
    pub row: Row,
    pub meta: RowMeta,
}

/// The abstract value of a fetched row.
pub struct RowDetailModel {
    pub row: RowView,
    pub meta: RowMetaView,
}

impl View for RowDetail {
    type V = RowDetailModel;

    open spec fn view(&self) -> RowDetailModel {
        RowDetailModel { row: self.row@, meta: self.meta@ }
    }
}

impl Clone for RowDetail {
    fn clone(&self) -> (r: Self)
        ensures
            r.row@ == self.row@,
            r.meta@ == self.meta@,
    {
        RowDetail { row: self.row.clone(), meta: self.meta.clone() }
    }
}

/// A live row object, as a row store caches it: the row's identifier
/// together with the content and metadata read from its document. A row
/// document that exists but holds no row yet has `row == None`.
#[derive(Debug)]
pub struct DatabaseRow {
    pub row_id: RowId,
    pub row: Option<Row>,
    pub meta: Option<RowMeta>,
}

/// The abstract value of a live row object.
pub struct DatabaseRowModel {
    pub row_id: Seq<char>,
    pub row: Option<RowView>,
    pub meta: Option<RowMetaView>,
}

impl View for DatabaseRow {
    type V = DatabaseRowModel;

    open spec fn view(&self) -> DatabaseRowModel {
        DatabaseRowModel {
            row_id: self.row_id@,
            row: match self.row {
                Some(r) => Some(r@),
                None => None,
            },
            meta: match self.meta {
                Some(m) => Some(m@),
                None => None,
            },
        }
    }
}

impl Clone for DatabaseRow {
    fn clone(&self) -> (r: Self)
        ensures
            r@ == self@,
    {
        let row = match &self.row {
            Some(rr) => Some(rr.clone()),
            None => None,
        };
        let meta = match &self.meta {
            Some(m) => Some(m.clone()),
            None => None,
        };
        DatabaseRow { row_id: self.row_id.clone(), row, meta }
    }
}

/// The keys under which derived meta documents of a row are filed.
#[derive(Clone, Copy, PartialEq, Eq, Structural, Debug)]
pub enum RowMetaKey {
    DocumentId,
    IconId,
    CoverId,
}

impl RowMetaKey {
    pub fn as_str(&self) -> (r: &'static str)
        ensures
            r@ == self.spec_str(),
    {
        match self {
            RowMetaKey::DocumentId => "document_id",
            RowMetaKey::IconId => "icon_id",
            RowMetaKey::CoverId => "cover_id",
        }
    }

    pub open spec fn spec_str(self) -> Seq<char> {
        match self {
            RowMetaKey::DocumentId => "document_id"@,
            RowMetaKey::IconId => "icon_id"@,
            RowMetaKey::CoverId => "cover_id"@,
        }
    }
}

/// The 128-bit value of the UUID written in `s`, if `s` is a well-formed
/// textual UUID. Stands for what `uuid::Uuid::parse_str` accepts.
pub uninterp spec fn parsed_uuid(s: Seq<char>) -> Option<u128>;

/// The canonical hyphenated text of the version-5 UUID derived from the
/// given namespace UUID and name. Stands for `uuid::Uuid::new_v5`.
pub uninterp spec fn uuid_v5_str(namespace: u128, name: Seq<char>) -> Seq<char>;

/// Relies on `uuid::Uuid::parse_str`: accepts exactly the well-formed
/// textual UUIDs, a function of the input characters alone.
#[verifier::external_body]
fn parse_uuid(s: &str) -> (r: Option<u128>)
    ensures
        r == parsed_uuid(s@),
{
    match uuid::Uuid::parse_str(s) {
        Ok(u) => Some(u.as_u128()),
        Err(_) => None,
    }
}

/// Relies on `uuid::Uuid::new_v5`: a name-based digest determined by the
/// namespace and name alone, rendered in canonical hyphenated form.
#[verifier::external_body]
fn uuid_v5_string(namespace: u128, name: &str) -> (r: String)
    ensures
        r@ == uuid_v5_str(namespace, name@),
{
    uuid::Uuid::new_v5(&uuid::Uuid::from_u128(namespace), name.as_bytes()).to_string()
}

/// The identifier of the meta document filed under `key` for the row whose
/// identifier parses to the UUID `row_uuid`.
pub fn meta_id_from_row_id(row_uuid: u128, key: RowMetaKey) -> (r: String)
    ensures
        r@ == uuid_v5_str(row_uuid, key.spec_str()),
{
    uuid_v5_string(row_uuid, key.as_str())
}

/// The identifier of the document holding a row's long-form content:
/// `None` when the row identifier is not a well-formed UUID.
pub fn row_document_id(row_id: &RowId) -> (r: Option<String>)
    ensures
        match r {
            Some(s) => parsed_uuid(row_id@) is Some
                && s@ == uuid_v5_str(parsed_uuid(row_id@)->0, RowMetaKey::DocumentId.spec_str()),
            None => parsed_uuid(row_id@) is None,
        },
{
    match parse_uuid(row_id.as_str()) {
        Some(u) => Some(meta_id_from_row_id(u, RowMetaKey::DocumentId)),
        None => None,
    }
}

} // verus!
