//! In-memory representations of common simulation output formats: VTK
//! legacy, CSV, XYZ, LAMMPS dump, an HDF5-style store and a trajectory log.
//!
//! Real values are bit patterns (see `crate::scalars`). Where a format writes
//! real numbers as text, the caller supplies each number already rendered
//! (as Rust's `f64` `Display` renders it); the layout of the text is built here.

use vstd::prelude::*;
use vstd::string::StringExecFns;
use vstd::utf8::encode_utf8;
use crate::scalars::{REAL_ZERO, REAL_ONE};
use crate::text::{decimal, concat_all, views, join, push_decimal, push_decimal_usize, push_string, concat_strings, join_strings};
use crate::seqs::{first_index, lemma_first_index, lemma_first_index_bounds};

verus! {

// ---------------------------------------------------------------------------
// PyVtkWriter
// ---------------------------------------------------------------------------

/// In-memory VTK legacy-format writer.
#[derive(Debug, Clone)]
pub struct PyVtkWriter {
    /// Output filename.
    pub filename: String,
    /// Named point data arrays.
    pub point_data: Vec<(String, Vec<u64>)>,
    /// Named cell data arrays.
    pub cell_data: Vec<(String, Vec<u64>)>,
}

/// The fixed header of the ASCII VTK text, up to the file name.
pub open spec fn vtk_header() -> Seq<char> {
    "# vtk DataFile Version 3.0\nOxiPhysics output\nASCII\nDATASET UNSTRUCTURED_GRID\nfile="@
}

/// One descriptor line per array: `<tag><name> len=<n>\n`.
pub open spec fn vtk_array_lines(tag: Seq<char>, arrays: Seq<(String, Vec<u64>)>) -> Seq<char>
    decreases arrays.len(),
{
    if arrays.len() == 0 {
        Seq::empty()
    } else {
        vtk_array_lines(tag, arrays.drop_last()) + tag + arrays.last().0@ + " len="@
            + decimal(arrays.last().1@.len()) + "\n"@
    }
}

/// The ASCII VTK text of a writer.
pub open spec fn vtk_ascii(w: PyVtkWriter) -> Seq<char> {
    vtk_header() + w.filename@ + "\n"@ + vtk_array_lines("POINT_DATA "@, w.point_data@)
        + vtk_array_lines("CELL_DATA "@, w.cell_data@)
}

/// Eight bytes per value over all arrays.
pub open spec fn vtk_payload_bytes(arrays: Seq<(String, Vec<u64>)>) -> nat
    decreases arrays.len(),
{
    if arrays.len() == 0 {
        0
    } else {
        vtk_payload_bytes(arrays.drop_last()) + 8 * arrays.last().1@.len()
    }
}

/// The byte size of the binary VTK file of a writer: the file name's UTF-8
/// length, 64 header bytes, and eight bytes per value of every array.
pub open spec fn vtk_binary_size(w: PyVtkWriter) -> nat {
    encode_utf8(w.filename@).len() + 64 + vtk_payload_bytes(w.point_data@)
        + vtk_payload_bytes(w.cell_data@)
}

proof fn lemma_vtk_payload_prefix(arrays: Seq<(String, Vec<u64>)>, i: int)
    requires
        0 <= i <= arrays.len(),
    ensures
        vtk_payload_bytes(arrays.take(i)) <= vtk_payload_bytes(arrays),
    decreases arrays.len() - i,
{
    if i < arrays.len() {
        lemma_vtk_payload_prefix(arrays, i + 1);
        assert(arrays.take(i + 1).drop_last() =~= arrays.take(i));
    } else {
        assert(arrays.take(i) =~= arrays);
    }
}

/// Sum the payload bytes of the arrays; the sum is known to fit.
fn payload_bytes(arrays: &Vec<(String, Vec<u64>)>) -> (n: usize)
    requires
        vtk_payload_bytes(arrays@) <= usize::MAX,
    ensures
        n == vtk_payload_bytes(arrays@),
{
    let mut n: usize = 0;
    let mut i: usize = 0;
    while i < arrays.len()
        invariant
            i <= arrays.len(),
            vtk_payload_bytes(arrays@) <= usize::MAX,
            n == vtk_payload_bytes(arrays@.take(i as int)),
        decreases arrays.len() - i,
    {
        proof {
            assert(arrays@.take(i + 1).drop_last() =~= arrays@.take(i as int));
            lemma_vtk_payload_prefix(arrays@, i + 1);
        }
        let len = arrays[i].1.len();
        n = n + len * 8;
        i = i + 1;
    }
    assert(arrays@.take(arrays.len() as int) =~= arrays@);
    n
}

/// Append the descriptor lines of the arrays.
fn push_array_lines(out: &mut String, tag: &str, arrays: &Vec<(String, Vec<u64>)>)
    ensures
        final(out)@ == old(out)@ + vtk_array_lines(tag@, arrays@),
{
    let ghost start = out@;
    let mut i: usize = 0;
    while i < arrays.len()
        invariant
            i <= arrays.len(),
            out@ == start + vtk_array_lines(tag@, arrays@.take(i as int)),
        decreases arrays.len() - i,
    {
        proof { assert(arrays@.take(i + 1).drop_last() =~= arrays@.take(i as int)); }
        out.append(tag);
        push_string(out, &arrays[i].0);
        out.append(" len=");
        push_decimal_usize(out, arrays[i].1.len());
        out.append("\n");
        assert(out@ =~= start + vtk_array_lines(tag@, arrays@.take(i + 1)));
        i = i + 1;
    }
    assert(arrays@.take(arrays.len() as int) =~= arrays@);
}

impl PyVtkWriter {
    /// Create a new VTK writer targeting the given file.
    pub fn new(filename: &str) -> (w: Self)
        ensures
            w.filename@ == filename@,
            w.point_data@.len() == 0,
            w.cell_data@.len() == 0,
    {
        PyVtkWriter { filename: filename.to_owned(), point_data: Vec::new(), cell_data: Vec::new() }
    }

    /// Attach a named point-data array.
    pub fn add_point_data(&mut self, name: &str, data: Vec<u64>)
        ensures
            final(self).filename == old(self).filename,
            final(self).cell_data == old(self).cell_data,
            final(self).point_data@.len() == old(self).point_data@.len() + 1,
            final(self).point_data@.drop_last() == old(self).point_data@,
            final(self).point_data@.last().0@ == name@,
            final(self).point_data@.last().1@ == data@,
    {
        self.point_data.push((name.to_owned(), data));
        assert(self.point_data@.drop_last() =~= old(self).point_data@);
    }

    /// Attach a named cell-data array.
    pub fn add_cell_data(&mut self, name: &str, data: Vec<u64>)
        ensures
            final(self).filename == old(self).filename,
            final(self).point_data == old(self).point_data,
            final(self).cell_data@.len() == old(self).cell_data@.len() + 1,
            final(self).cell_data@.drop_last() == old(self).cell_data@,
            final(self).cell_data@.last().0@ == name@,
            final(self).cell_data@.last().1@ == data@,
    {
        self.cell_data.push((name.to_owned(), data));
        assert(self.cell_data@.drop_last() =~= old(self).cell_data@);
    }

    /// The minimal VTK ASCII text: the header with the file name, then one
    /// line per point-data array and one per cell-data array.
    pub fn write_ascii(&self) -> (out: String)
        ensures
            out@ == vtk_ascii(*self),
    {
        let mut out = String::new();
        out.append("# vtk DataFile Version 3.0\nOxiPhysics output\nASCII\nDATASET UNSTRUCTURED_GRID\nfile=");
        push_string(&mut out, &self.filename);
        out.append("\n");
        push_array_lines(&mut out, "POINT_DATA ", &self.point_data);
        push_array_lines(&mut out, "CELL_DATA ", &self.cell_data);
        assert(out@ =~= vtk_ascii(*self));
        out
    }

    /// The byte length that a binary VTK file of this writer would have.
    pub fn write_binary(&self) -> (n: usize)
        requires
            vtk_binary_size(*self) <= usize::MAX,
        ensures
            n == vtk_binary_size(*self),
    {
        let base = self.filename.as_str().len() + 64;
        let pd = payload_bytes(&self.point_data);
        let cd = payload_bytes(&self.cell_data);
        base + pd + cd
    }

    /// Number of point-data arrays attached.
    pub fn n_point_arrays(&self) -> (n: usize)
        ensures
            n == self.point_data@.len(),
    {
        self.point_data.len()
    }

    /// Number of cell-data arrays attached.
    pub fn n_cell_arrays(&self) -> (n: usize)
        ensures
            n == self.cell_data@.len(),
    {
        self.cell_data.len()
    }
}

impl Default for PyVtkWriter {
    fn default() -> (w: Self)
        ensures
            w.filename@ == "output.vtk"@,
            w.point_data@.len() == 0,
            w.cell_data@.len() == 0,
    {
        Self::new("output.vtk")
    }
}

/// Attaching a point-data array of `n` values grows the binary size by `8 n` bytes.
pub proof fn law_vtk_binary_size_grows(w: PyVtkWriter, w2: PyVtkWriter)
    requires
        w2.filename == w.filename,
        w2.cell_data == w.cell_data,
        w2.point_data@.len() == w.point_data@.len() + 1,
        w2.point_data@.drop_last() == w.point_data@,
    ensures
        vtk_binary_size(w2) == vtk_binary_size(w) + 8 * w2.point_data@.last().1@.len(),
{
}

/// The text of a writer without arrays is the header and its file name.
pub proof fn law_vtk_ascii_without_arrays(w: PyVtkWriter)
    requires
        w.point_data@.len() == 0,
        w.cell_data@.len() == 0,
    ensures
        vtk_ascii(w) == "# vtk DataFile Version 3.0\nOxiPhysics output\nASCII\nDATASET UNSTRUCTURED_GRID\nfile="@
            + w.filename@ + "\n"@,
{
    assert(vtk_ascii(w) =~= vtk_header() + w.filename@ + "\n"@);
}

/// Attaching a cell-data array appends one line to the text:
/// `CELL_DATA <name> len=<n>`.
pub proof fn law_vtk_cell_array_line(w: PyVtkWriter, w2: PyVtkWriter)
    requires
        w2.filename == w.filename,
        w2.point_data == w.point_data,
        w2.cell_data@.len() == w.cell_data@.len() + 1,
        w2.cell_data@.drop_last() == w.cell_data@,
    ensures
        vtk_ascii(w2) == vtk_ascii(w) + "CELL_DATA "@ + w2.cell_data@.last().0@ + " len="@
            + decimal(w2.cell_data@.last().1@.len()) + "\n"@,
{
    let c = w2.cell_data@.last();
    assert(vtk_ascii(w2) =~= vtk_ascii(w) + "CELL_DATA "@ + c.0@ + " len="@ + decimal(c.1@.len()) + "\n"@);
}

/// Attaching a point-data array to a writer without cell data appends one
/// line to the text: `POINT_DATA <name> len=<n>`.
pub proof fn law_vtk_point_array_line(w: PyVtkWriter, w2: PyVtkWriter)
    requires
        w2.filename == w.filename,
        w2.cell_data == w.cell_data,
        w.cell_data@.len() == 0,
        w2.point_data@.len() == w.point_data@.len() + 1,
        w2.point_data@.drop_last() == w.point_data@,
    ensures
        vtk_ascii(w2) == vtk_ascii(w) + "POINT_DATA "@ + w2.point_data@.last().0@ + " len="@
            + decimal(w2.point_data@.last().1@.len()) + "\n"@,
{
    let c = w2.point_data@.last();
    assert(vtk_array_lines("CELL_DATA "@, w.cell_data@) =~= Seq::<char>::empty());
    assert(vtk_ascii(w2) =~= vtk_ascii(w) + "POINT_DATA "@ + c.0@ + " len="@ + decimal(c.1@.len()) + "\n"@);
}

// ---------------------------------------------------------------------------
// PyCsvReader
// ---------------------------------------------------------------------------

/// In-memory CSV reader.
#[derive(Debug, Clone)]
pub struct PyCsvReader {
    /// Source filename.
    pub filename: String,
    /// Column header names.
    pub headers: Vec<String>,
    /// Row-major data storage (rows × columns).
    pub rows: Vec<Vec<u64>>,
}

/// The values of column `col`, from the rows long enough to have one.
pub open spec fn column(rows: Seq<Vec<u64>>, col: int) -> Seq<u64>
    decreases rows.len(),
{
    if rows.len() == 0 {
        Seq::empty()
    } else if 0 <= col < rows.last()@.len() {
        column(rows.drop_last(), col).push(rows.last()@[col])
    } else {
        column(rows.drop_last(), col)
    }
}

/// All values in row-major order.
pub open spec fn flatten_rows(rows: Seq<Vec<u64>>) -> Seq<u64>
    decreases rows.len(),
{
    if rows.len() == 0 {
        Seq::empty()
    } else {
        flatten_rows(rows.drop_last()) + rows.last()@
    }
}

impl PyCsvReader {
    /// Create a new CSV reader with no data.
    pub fn new(filename: &str) -> (r: Self)
        ensures
            r.filename@ == filename@,
            r.headers@.len() == 0,
            r.rows@.len() == 0,
    {
        PyCsvReader { filename: filename.to_owned(), headers: Vec::new(), rows: Vec::new() }
    }

    /// Load in-memory data directly, replacing what was there.
    pub fn load_data(&mut self, headers: Vec<String>, rows: Vec<Vec<u64>>)
        ensures
            final(self).filename == old(self).filename,
            final(self).headers == headers,
            final(self).rows == rows,
    {
        self.headers = headers;
        self.rows = rows;
    }

    /// Read a single column by index; rows too short for it are skipped.
    pub fn read_column(&self, col: usize) -> (c: Vec<u64>)
        ensures
            c@ == column(self.rows@, col as int),
    {
        let mut c: Vec<u64> = Vec::new();
        let mut i: usize = 0;
        while i < self.rows.len()
            invariant
                i <= self.rows@.len(),
                c@ == column(self.rows@.take(i as int), col as int),
            decreases self.rows@.len() - i,
        {
            assert(self.rows@.take(i + 1).drop_last() =~= self.rows@.take(i as int));
            if col < self.rows[i].len() {
                c.push(self.rows[i][col]);
            }
            i = i + 1;
        }
        assert(self.rows@.take(self.rows@.len() as int) =~= self.rows@);
        c
    }

    /// All data as one vector in row-major order.
    pub fn read_all_f64(&self) -> (all: Vec<u64>)
        ensures
            all@ == flatten_rows(self.rows@),
    {
        let mut all: Vec<u64> = Vec::new();
        let mut i: usize = 0;
        while i < self.rows.len()
            invariant
                i <= self.rows@.len(),
                all@ == flatten_rows(self.rows@.take(i as int)),
            decreases self.rows@.len() - i,
        {
            assert(self.rows@.take(i + 1).drop_last() =~= self.rows@.take(i as int));
            let row = &self.rows[i];
            let ghost before = all@;
            let mut j: usize = 0;
            while j < row.len()
                invariant
                    j <= row@.len(),
                    all@ == before + row@.take(j as int),
                decreases row@.len() - j,
            {
                all.push(row[j]);
                assert(all@ =~= before + row@.take(j + 1));
                j = j + 1;
            }
            assert(row@.take(row@.len() as int) =~= row@);
            i = i + 1;
        }
        assert(self.rows@.take(self.rows@.len() as int) =~= self.rows@);
        all
    }

    /// The column header names.
    pub fn header_names(&self) -> (h: &[String])
        ensures
            h@ == self.headers@,
    {
        self.headers.as_slice()
    }

    /// Number of data rows.
    pub fn n_rows(&self) -> (n: usize)
        ensures
            n == self.rows@.len(),
    {
        self.rows.len()
    }

    /// Number of columns, taken from the first row (0 if there is none).
    pub fn n_cols(&self) -> (n: usize)
        ensures
            n == if self.rows@.len() == 0 { 0 } else { self.rows@[0]@.len() },
    {
        if self.rows.len() == 0 {
            0
        } else {
            self.rows[0].len()
        }
    }
}

impl Default for PyCsvReader {
    fn default() -> (r: Self)
        ensures
            r.filename@ == "input.csv"@,
            r.headers@.len() == 0,
            r.rows@.len() == 0,
    {
        Self::new("input.csv")
    }
}

// ---------------------------------------------------------------------------
// PyCsvWriter
// ---------------------------------------------------------------------------

/// In-memory CSV writer. Each buffered row holds its values already rendered
/// as text.
#[derive(Debug, Clone)]
pub struct PyCsvWriter {
    /// Output filename.
    pub filename: String,
    /// Buffered rows waiting to be flushed.
    pub buffer: Vec<Vec<String>>,
}

/// The CSV text of rendered rows: values joined by `,`, rows by a newline,
/// with no newline after the last row.
pub open spec fn csv_text(rows: Seq<Vec<String>>) -> Seq<char> {
    join(csv_lines(rows), "\n"@)
}

/// One line per rendered row: its values joined by `,`.
pub open spec fn csv_lines(rows: Seq<Vec<String>>) -> Seq<Seq<char>>
    decreases rows.len(),
{
    if rows.len() == 0 {
        Seq::empty()
    } else {
        csv_lines(rows.drop_last()).push(join(views(rows.last()@), ","@))
    }
}

impl PyCsvWriter {
    /// Create a new CSV writer targeting the given file.
    pub fn new(filename: &str) -> (w: Self)
        ensures
            w.filename@ == filename@,
            w.buffer@.len() == 0,
    {
        PyCsvWriter { filename: filename.to_owned(), buffer: Vec::new() }
    }

    /// Append a row of rendered values to the buffer.
    pub fn write_row(&mut self, data: Vec<String>)
        ensures
            final(self).filename == old(self).filename,
            final(self).buffer@ == old(self).buffer@.push(data),
    {
        self.buffer.push(data);
    }

    /// Empty the buffer and return its rows as CSV text.
    pub fn flush(&mut self) -> (csv: String)
        ensures
            csv@ == csv_text(old(self).buffer@),
            final(self).filename == old(self).filename,
            final(self).buffer@.len() == 0,
    {
        let mut lines: Vec<String> = Vec::new();
        let mut i: usize = 0;
        while i < self.buffer.len()
            invariant
                i <= self.buffer@.len(),
                self.buffer@ == old(self).buffer@,
                self.filename == old(self).filename,
                views(lines@) == csv_lines(old(self).buffer@.take(i as int)),
            decreases self.buffer@.len() - i,
        {
            let line = join_strings(&self.buffer[i], ",");
            lines.push(line);
            assert(old(self).buffer@.take(i + 1).drop_last() =~= old(self).buffer@.take(i as int));
            assert(views(lines@) =~= csv_lines(old(self).buffer@.take(i + 1)));
            i = i + 1;
        }
        assert(old(self).buffer@.take(old(self).buffer@.len() as int) =~= old(self).buffer@);
        let csv = join_strings(&lines, "\n");
        self.buffer.clear();
        csv
    }

    /// Number of rows currently buffered.
    pub fn buffered_rows(&self) -> (n: usize)
        ensures
            n == self.buffer@.len(),
    {
        self.buffer.len()
    }
}

impl Default for PyCsvWriter {
    fn default() -> (w: Self)
        ensures
            w.filename@ == "output.csv"@,
            w.buffer@.len() == 0,
    {
        Self::new("output.csv")
    }
}

// ---------------------------------------------------------------------------
// PyXyzReader
// ---------------------------------------------------------------------------

/// In-memory reader for the XYZ molecular dynamics format.
#[derive(Debug, Clone)]
pub struct PyXyzReader {
    /// Source filename.
    pub filename: String,
    /// Atom species strings (e.g., `"C"`, `"H"`, `"O"`).
    pub species: Vec<String>,
    /// Flat positions: `[x0, y0, z0, x1, y1, z1, …]`.
    pub pos_flat: Vec<u64>,
}

impl PyXyzReader {
    /// Create a new XYZ reader with no atoms.
    pub fn new(filename: &str) -> (r: Self)
        ensures
            r.filename@ == filename@,
            r.species@.len() == 0,
            r.pos_flat@.len() == 0,
    {
        PyXyzReader { filename: filename.to_owned(), species: Vec::new(), pos_flat: Vec::new() }
    }

    /// Load in-memory data, replacing what was there.
    pub fn load_data(&mut self, species: Vec<String>, pos_flat: Vec<u64>)
        ensures
            final(self).filename == old(self).filename,
            final(self).species == species,
            final(self).pos_flat == pos_flat,
    {
        self.species = species;
        self.pos_flat = pos_flat;
    }

    /// Number of atoms (one per species entry).
    pub fn n_atoms(&self) -> (n: usize)
        ensures
            n == self.species@.len(),
    {
        self.species.len()
    }

    /// Position array `[x, y, z, …]` for all atoms.
    pub fn positions(&self) -> (p: &[u64])
        ensures
            p@ == self.pos_flat@,
    {
        self.pos_flat.as_slice()
    }

    /// Species array.
    pub fn species(&self) -> (s: &[String])
        ensures
            s@ == self.species@,
    {
        self.species.as_slice()
    }

    /// Position `[x, y, z]` of atom `i`, if the flat array holds all three.
    pub fn position_of(&self, i: usize) -> (p: Option<[u64; 3]>)
        requires
            3 * i + 2 <= usize::MAX,
        ensures
            p == if 3 * i + 2 < self.pos_flat@.len() {
                Some([self.pos_flat@[3 * i], self.pos_flat@[3 * i + 1], self.pos_flat@[3 * i + 2]])
            } else {
                None
            },
    {
        let base = i * 3;
        if base + 2 < self.pos_flat.len() {
            Some([self.pos_flat[base], self.pos_flat[base + 1], self.pos_flat[base + 2]])
        } else {
            None
        }
    }
}

impl Default for PyXyzReader {
    fn default() -> (r: Self)
        ensures
            r.filename@ == "atoms.xyz"@,
            r.species@.len() == 0,
            r.pos_flat@.len() == 0,
    {
        Self::new("atoms.xyz")
    }
}

// ---------------------------------------------------------------------------
// PyXyzWriter
// ---------------------------------------------------------------------------

/// In-memory writer for the XYZ molecular dynamics format.
#[derive(Debug, Clone)]
pub struct PyXyzWriter {
    /// Output filename.
    pub filename: String,
    /// Accumulated frames as raw XYZ strings.
    pub frames: Vec<String>,
}

/// Coordinate `axis` of atom `i` as rendered text, or `0` when the flat
/// position array does not hold all three coordinates of that atom.
pub open spec fn xyz_coord(positions: Seq<Seq<char>>, i: int, axis: int) -> Seq<char> {
    if 3 * i + 2 < positions.len() {
        positions[3 * i + axis]
    } else {
        "0"@
    }
}

/// The line of atom `i`: `<species> <x> <y> <z>\n`.
pub open spec fn xyz_atom_line(positions: Seq<Seq<char>>, species: Seq<Seq<char>>, i: int) -> Seq<char> {
    species[i] + " "@ + xyz_coord(positions, i, 0) + " "@ + xyz_coord(positions, i, 1) + " "@
        + xyz_coord(positions, i, 2) + "\n"@
}

/// The lines of the first `k` atoms.
pub open spec fn xyz_atom_lines(positions: Seq<Seq<char>>, species: Seq<Seq<char>>, k: nat) -> Seq<char>
    decreases k,
{
    if k == 0 {
        Seq::empty()
    } else {
        xyz_atom_lines(positions, species, (k - 1) as nat) + xyz_atom_line(positions, species, k - 1)
    }
}

/// An XYZ frame: the atom count, the comment line, then one line per atom.
pub open spec fn xyz_frame(positions: Seq<Seq<char>>, species: Seq<Seq<char>>, comment: Seq<char>) -> Seq<char> {
    decimal(species.len()) + "\n"@ + comment + "\n"@ + xyz_atom_lines(positions, species, species.len())
}

/// Append coordinate `axis` of atom `i`.
fn push_coord(out: &mut String, positions: &[String], i: usize, axis: usize)
    requires
        axis < 3,
        3 * i + 2 <= usize::MAX,
    ensures
        final(out)@ == old(out)@ + xyz_coord(views(positions@), i as int, axis as int),
{
    let base = i * 3;
    if base + 2 < positions.len() {
        push_string(out, &positions[base + axis]);
    } else {
        out.append("0");
    }
}

impl PyXyzWriter {
    /// Create a new XYZ writer with no frames.
    pub fn new(filename: &str) -> (w: Self)
        ensures
            w.filename@ == filename@,
            w.frames@.len() == 0,
    {
        PyXyzWriter { filename: filename.to_owned(), frames: Vec::new() }
    }

    /// Append a frame. `positions` holds the rendered coordinates, flat
    /// `[x0, y0, z0, x1, …]`; `species` has one entry per atom; `comment` is
    /// the second header line.
    pub fn write_frame(&mut self, positions: &[String], species: &[String], comment: &str)
        requires
            3 * species@.len() + 2 <= usize::MAX,
        ensures
            final(self).filename == old(self).filename,
            final(self).frames@.len() == old(self).frames@.len() + 1,
            final(self).frames@.drop_last() == old(self).frames@,
            final(self).frames@.last()@ == xyz_frame(views(positions@), views(species@), comment@),
    {
        let n = species.len();
        let mut frame = String::new();
        push_decimal_usize(&mut frame, n);
        frame.append("\n");
        frame.append(comment);
        frame.append("\n");
        let ghost head = frame@;
        let mut i: usize = 0;
        while i < n
            invariant
                n == species@.len(),
                3 * n + 2 <= usize::MAX,
                i <= n,
                frame@ == head + xyz_atom_lines(views(positions@), views(species@), i as nat),
            decreases n - i,
        {
            push_string(&mut frame, &species[i]);
            frame.append(" ");
            push_coord(&mut frame, positions, i, 0);
            frame.append(" ");
            push_coord(&mut frame, positions, i, 1);
            frame.append(" ");
            push_coord(&mut frame, positions, i, 2);
            frame.append("\n");
            assert(frame@ =~= head + xyz_atom_lines(views(positions@), views(species@), (i + 1) as nat));
            i = i + 1;
        }
        assert(frame@ =~= xyz_frame(views(positions@), views(species@), comment@));
        self.frames.push(frame);
        assert(self.frames@.drop_last() =~= old(self).frames@);
    }

    /// Number of frames written so far.
    pub fn n_frames(&self) -> (n: usize)
        ensures
            n == self.frames@.len(),
    {
        self.frames.len()
    }

    /// All frames concatenated into one string.
    pub fn as_string(&self) -> (s: String)
        ensures
            s@ == concat_all(views(self.frames@)),
    {
        concat_strings(&self.frames)
    }
}

impl Default for PyXyzWriter {
    fn default() -> (w: Self)
        ensures
            w.filename@ == "output.xyz"@,
            w.frames@.len() == 0,
    {
        Self::new("output.xyz")
    }
}

/// Writing a frame appends exactly that frame's text to the writer's output.
pub proof fn law_xyz_output_appends_frame(frames: Seq<String>, frame: String)
    ensures
        concat_all(views(frames.push(frame))) == concat_all(views(frames)) + frame@,
{
    assert(views(frames.push(frame)).drop_last() =~= views(frames));
}

// ---------------------------------------------------------------------------
// PyLammpsReader
// ---------------------------------------------------------------------------

/// In-memory reader for LAMMPS dump files.
#[derive(Debug, Clone)]
pub struct PyLammpsReader {
    /// Source filename.
    pub filename: String,
    /// Atom records: `[id, type, x, y, z]` per atom.
    pub atom_data: Vec<Vec<u64>>,
    /// Simulation box bounds `[[xlo, xhi], [ylo, yhi], [zlo, zhi]]`.
    pub box_bounds: [[u64; 2]; 3],
}

impl PyLammpsReader {
    /// Create a new LAMMPS reader with no atoms and the unit box `[0, 1]³`.
    pub fn new(filename: &str) -> (r: Self)
        ensures
            r.filename@ == filename@,
            r.atom_data@.len() == 0,
            r.box_bounds == [[REAL_ZERO, REAL_ONE], [REAL_ZERO, REAL_ONE], [REAL_ZERO, REAL_ONE]],
    {
        PyLammpsReader {
            filename: filename.to_owned(),
            atom_data: Vec::new(),
            box_bounds: [[REAL_ZERO, REAL_ONE], [REAL_ZERO, REAL_ONE], [REAL_ZERO, REAL_ONE]],
        }
    }

    /// Load in-memory atom data and box bounds, replacing what was there.
    pub fn load_data(&mut self, atom_data: Vec<Vec<u64>>, box_bounds: [[u64; 2]; 3])
        ensures
            final(self).filename == old(self).filename,
            final(self).atom_data == atom_data,
            final(self).box_bounds == box_bounds,
    {
        self.atom_data = atom_data;
        self.box_bounds = box_bounds;
    }

    /// All atom records.
    pub fn read_atoms(&self) -> (a: &[Vec<u64>])
        ensures
            a@ == self.atom_data@,
    {
        self.atom_data.as_slice()
    }

    /// Number of atoms in the last read frame.
    pub fn n_atoms(&self) -> (n: usize)
        ensures
            n == self.atom_data@.len(),
    {
        self.atom_data.len()
    }

    /// Box bounds `[[xlo, xhi], [ylo, yhi], [zlo, zhi]]`.
    pub fn box_bounds(&self) -> (b: [[u64; 2]; 3])
        ensures
            b == self.box_bounds,
    {
        self.box_bounds
    }
}

impl Default for PyLammpsReader {
    fn default() -> (r: Self)
        ensures
            r.filename@ == "dump.lammpstrj"@,
            r.atom_data@.len() == 0,
            r.box_bounds == [[REAL_ZERO, REAL_ONE], [REAL_ZERO, REAL_ONE], [REAL_ZERO, REAL_ONE]],
    {
        Self::new("dump.lammpstrj")
    }
}

// ---------------------------------------------------------------------------
// PyHdf5Writer
// ---------------------------------------------------------------------------

/// In-memory HDF5-style store of named datasets and scalar attributes.
#[derive(Debug, Clone)]
pub struct PyHdf5Writer {
    /// Output filename.
    pub filename: String,
    /// Named datasets.
    pub datasets: Vec<(String, Vec<u64>)>,
    /// Named scalar attributes.
    pub attributes: Vec<(String, u64)>,
}

/// Entry predicate: the entry's name is `name`.
pub open spec fn named<V>(name: Seq<char>) -> spec_fn((String, V)) -> bool {
    |e: (String, V)| e.0@ == name
}

/// The value of the first entry named `name`, if any.
pub open spec fn lookup<V>(entries: Seq<(String, V)>, name: Seq<char>) -> Option<V> {
    let k = first_index(entries, named::<V>(name));
    if k < entries.len() { Some(entries[k].1) } else { None }
}

/// Index of the first entry named `key`.
fn find_named<V>(entries: &Vec<(String, V)>, key: &String) -> (k: usize)
    ensures
        k == first_index(entries@, named::<V>(key@)),
        k <= entries@.len(),
{
    let mut i: usize = 0;
    while i < entries.len() && !(entries[i].0 == *key)
        invariant
            i <= entries@.len(),
            forall|j: int| 0 <= j < i ==> !(named::<V>(key@))(#[trigger] entries@[j]),
        decreases entries@.len() - i,
    {
        i = i + 1;
    }
    proof { lemma_first_index(entries@, named::<V>(key@), i as int); }
    i
}

impl PyHdf5Writer {
    /// Create a new writer with no datasets or attributes.
    pub fn new(filename: &str) -> (w: Self)
        ensures
            w.filename@ == filename@,
            w.datasets@.len() == 0,
            w.attributes@.len() == 0,
    {
        PyHdf5Writer { filename: filename.to_owned(), datasets: Vec::new(), attributes: Vec::new() }
    }

    /// Store a named dataset (after any earlier one of the same name).
    pub fn write_dataset(&mut self, name: &str, data: Vec<u64>)
        ensures
            final(self).filename == old(self).filename,
            final(self).attributes == old(self).attributes,
            final(self).datasets@.len() == old(self).datasets@.len() + 1,
            final(self).datasets@.drop_last() == old(self).datasets@,
            final(self).datasets@.last().0@ == name@,
            final(self).datasets@.last().1 == data,
    {
        self.datasets.push((name.to_owned(), data));
        assert(self.datasets@.drop_last() =~= old(self).datasets@);
    }

    /// Store a named scalar attribute (after any earlier one of the same name).
    pub fn write_attribute(&mut self, name: &str, value: u64)
        ensures
            final(self).filename == old(self).filename,
            final(self).datasets == old(self).datasets,
            final(self).attributes@.len() == old(self).attributes@.len() + 1,
            final(self).attributes@.drop_last() == old(self).attributes@,
            final(self).attributes@.last().0@ == name@,
            final(self).attributes@.last().1 == value,
    {
        self.attributes.push((name.to_owned(), value));
        assert(self.attributes@.drop_last() =~= old(self).attributes@);
    }

    /// Number of datasets stored.
    pub fn n_datasets(&self) -> (n: usize)
        ensures
            n == self.datasets@.len(),
    {
        self.datasets.len()
    }

    /// Number of attributes stored.
    pub fn n_attributes(&self) -> (n: usize)
        ensures
            n == self.attributes@.len(),
    {
        self.attributes.len()
    }

    /// The first dataset named `name`, if any.
    pub fn get_dataset(&self, name: &str) -> (d: Option<&Vec<u64>>)
        ensures
            d matches Some(v) ==> lookup(self.datasets@, name@) == Some(*v),
            d is None <==> lookup(self.datasets@, name@) is None,
    {
        let key = name.to_owned();
        let k = find_named(&self.datasets, &key);
        proof { lemma_first_index_bounds(self.datasets@, named::<Vec<u64>>(name@)); }
        if k < self.datasets.len() {
            Some(&self.datasets[k].1)
        } else {
            None
        }
    }

    /// The first attribute named `name`, if any.
    pub fn get_attribute(&self, name: &str) -> (v: Option<u64>)
        ensures
            v == lookup(self.attributes@, name@),
    {
        let key = name.to_owned();
        let k = find_named(&self.attributes, &key);
        if k < self.attributes.len() {
            Some(self.attributes[k].1)
        } else {
            None
        }
    }
}

impl Default for PyHdf5Writer {
    fn default() -> (w: Self)
        ensures
            w.filename@ == "output.h5"@,
            w.datasets@.len() == 0,
            w.attributes@.len() == 0,
    {
        Self::new("output.h5")
    }
}

/// A dataset written under a name no earlier dataset has is what a lookup of
/// that name gives back.
pub proof fn law_hdf5_read_after_write<V>(entries: Seq<(String, V)>, e: (String, V))
    requires
        forall|j: int| 0 <= j < entries.len() ==> (#[trigger] entries[j]).0@ != e.0@,
    ensures
        lookup(entries.push(e), e.0@) == Some(e.1),
{
    let t = entries.push(e);
    assert forall|j: int| 0 <= j < entries.len() implies !(named::<V>(e.0@))(#[trigger] t[j]) by {
        assert(t[j] == entries[j]);
    }
    lemma_first_index(t, named::<V>(e.0@), entries.len() as int);
}

/// Writing under a name that is already present leaves lookups unchanged:
/// the first entry of a name wins.
pub proof fn law_hdf5_first_write_wins<V>(entries: Seq<(String, V)>, e: (String, V), name: Seq<char>)
    requires
        lookup(entries, name) is Some,
    ensures
        lookup(entries.push(e), name) == lookup(entries, name),
{
    let t = entries.push(e);
    let k = first_index(entries, named::<V>(name));
    lemma_first_index_bounds(entries, named::<V>(name));
    assert forall|j: int| 0 <= j < k implies !(named::<V>(name))(#[trigger] t[j]) by {
        assert(t[j] == entries[j]);
    }
    assert(t[k] == entries[k]);
    lemma_first_index(t, named::<V>(name), k);
}

// ---------------------------------------------------------------------------
// PyTrajectoryWriter
// ---------------------------------------------------------------------------

/// Multi-format trajectory writer, kept in memory.
#[derive(Debug, Clone)]
pub struct PyTrajectoryWriter {
    /// Output filename.
    pub filename: String,
    /// Format string (e.g., `"xyz"`, `"lammps"`, `"vtk"`).
    pub format: String,
    /// Whether the writer has been closed.
    pub closed: bool,
    /// Number of frames written.
    pub frame_count: usize,
    /// Buffered frame strings.
    pub frame_buffer: Vec<String>,
}

/// A trajectory frame line:
/// `FRAME step=<step> n_pos=<positions> n_vel=<velocities> fmt=<format>\n`.
pub open spec fn trajectory_frame(step: nat, n_pos: nat, n_vel: nat, format: Seq<char>) -> Seq<char> {
    "FRAME step="@ + decimal(step) + " n_pos="@ + decimal(n_pos) + " n_vel="@ + decimal(n_vel)
        + " fmt="@ + format + "\n"@
}

/// A call on a trajectory writer, with what it depends on: writing a frame
/// (the step and the lengths of the position and velocity arrays), closing,
/// or one of the queries `is_closed`, `n_frames` and `as_string`.
pub enum TrajectoryCall {
    WriteFrame { step: u64, n_pos: usize, n_vel: usize },
    Close,
    Query,
}

/// What a call does to a trajectory writer `w`, leaving it as `w2`: a
/// closed writer ignores a frame, an open one appends the frame's line and
/// counts it; closing sets the flag and keeps the rest; a query changes
/// nothing.
pub open spec fn trajectory_step(w: PyTrajectoryWriter, call: TrajectoryCall, w2: PyTrajectoryWriter) -> bool {
    match call {
        TrajectoryCall::WriteFrame { step, n_pos, n_vel } => if w.closed {
            w2 == w
        } else {
            &&& w2.filename == w.filename
            &&& w2.format == w.format
            &&& w2.closed == w.closed
            &&& w2.frame_count == w.frame_count + 1
            &&& w2.frame_buffer@ == w.frame_buffer@.push(w2.frame_buffer@.last())
            &&& w2.frame_buffer@.last()@ == trajectory_frame(step as nat, n_pos as nat, n_vel as nat, w.format@)
        },
        TrajectoryCall::Close => w2 == (PyTrajectoryWriter { closed: true, ..w }),
        TrajectoryCall::Query => w2 == w,
    }
}

impl PyTrajectoryWriter {
    /// Create a new, open trajectory writer with no frames.
    pub fn new(filename: &str, format: &str) -> (w: Self)
        ensures
            w.filename@ == filename@,
            w.format@ == format@,
            !w.closed,
            w.frame_count == 0,
            w.frame_buffer@.len() == 0,
    {
        PyTrajectoryWriter {
            filename: filename.to_owned(),
            format: format.to_owned(),
            closed: false,
            frame_count: 0,
            frame_buffer: Vec::new(),
        }
    }

    /// Write a trajectory frame recording the step number and the lengths of
    /// the flat position and velocity arrays. A closed writer ignores it.
    pub fn write_frame<T>(&mut self, positions: &[T], velocities: &[T], step: u64)
        requires
            !old(self).closed ==> old(self).frame_count < usize::MAX,
        ensures
            old(self).closed ==> *final(self) == *old(self),
            !old(self).closed ==> {
                &&& final(self).filename == old(self).filename
                &&& final(self).format == old(self).format
                &&& final(self).closed == old(self).closed
                &&& final(self).frame_count == old(self).frame_count + 1
                &&& final(self).frame_buffer@ == old(self).frame_buffer@.push(final(self).frame_buffer@.last())
                &&& final(self).frame_buffer@.last()@ == trajectory_frame(
                    step as nat,
                    positions@.len(),
                    velocities@.len(),
                    old(self).format@,
                )
            },
            trajectory_step(
                *old(self),
                TrajectoryCall::WriteFrame { step, n_pos: positions@.len() as usize, n_vel: velocities@.len() as usize },
                *final(self),
            ),
    {
        if self.closed {
            return;
        }
        let mut frame = String::new();
        frame.append("FRAME step=");
        push_decimal(&mut frame, step);
        frame.append(" n_pos=");
        push_decimal_usize(&mut frame, positions.len());
        frame.append(" n_vel=");
        push_decimal_usize(&mut frame, velocities.len());
        frame.append(" fmt=");
        push_string(&mut frame, &self.format);
        frame.append("\n");
        assert(frame@ =~= trajectory_frame(step as nat, positions@.len(), velocities@.len(), self.format@));
        self.frame_buffer.push(frame);
        self.frame_count = self.frame_count + 1;
        assert(self.frame_buffer@ =~= old(self).frame_buffer@.push(self.frame_buffer@.last()));
    }

    /// Close the writer; no further frames are added.
    pub fn close(&mut self)
        ensures
            *final(self) == (PyTrajectoryWriter { closed: true, ..*old(self) }),
            trajectory_step(*old(self), TrajectoryCall::Close, *final(self)),
    {
        self.closed = true;
    }

    /// Whether the writer is closed.
    pub fn is_closed(&self) -> (c: bool)
        ensures
            c == self.closed,
    {
        self.closed
    }

    /// Total number of frames written.
    pub fn n_frames(&self) -> (n: usize)
        ensures
            n == self.frame_count,
    {
        self.frame_count
    }

    /// The buffered frames concatenated into one string.
    pub fn as_string(&self) -> (s: String)
        ensures
            s@ == concat_all(views(self.frame_buffer@)),
    {
        concat_strings(&self.frame_buffer)
    }
}

impl Default for PyTrajectoryWriter {
    fn default() -> (w: Self)
        ensures
            w.filename@ == "trajectory.xyz"@,
            w.format@ == "xyz"@,
            !w.closed,
            w.frame_count == 0,
            w.frame_buffer@.len() == 0,
    {
        Self::new("trajectory.xyz", "xyz")
    }
}

/// A trajectory writer stays open until it is closed and never opens again:
/// along any run of calls from an open writer, each state is closed exactly
/// when a `close` came before it.
pub proof fn law_trajectory_stays_closed(states: Seq<PyTrajectoryWriter>, calls: Seq<TrajectoryCall>)
    requires
        states.len() == calls.len() + 1,
        !states[0].closed,
        forall|i: int| 0 <= i < calls.len() ==> trajectory_step(states[i], #[trigger] calls[i], states[i + 1]),
    ensures
        forall|i: int|
            0 <= i < states.len() ==> ((#[trigger] states[i]).closed <==> exists|j: int| 0 <= j < i && calls[j] is Close),
{
    assert forall|i: int| 0 <= i < states.len() implies ((#[trigger] states[i]).closed <==> exists|j: int|
        0 <= j < i && calls[j] is Close) by {
        lemma_closed_after_prefix(states, calls, i);
    }
}

proof fn lemma_closed_after_prefix(states: Seq<PyTrajectoryWriter>, calls: Seq<TrajectoryCall>, i: int)
    requires
        states.len() == calls.len() + 1,
        !states[0].closed,
        forall|k: int| 0 <= k < calls.len() ==> trajectory_step(states[k], #[trigger] calls[k], states[k + 1]),
        0 <= i < states.len(),
    ensures
        states[i].closed <==> exists|j: int| 0 <= j < i && calls[j] is Close,
    decreases i,
{
    if i > 0 {
        lemma_closed_after_prefix(states, calls, i - 1);
        assert(trajectory_step(states[i - 1], calls[i - 1], states[i]));
        if calls[i - 1] is Close {
            assert(states[i].closed);
        } else {
            assert(states[i].closed == states[i - 1].closed);
            if exists|j: int| 0 <= j < i && calls[j] is Close {
                let j = choose|j: int| 0 <= j < i && calls[j] is Close;
                assert(j < i - 1);
            }
        }
    }
}

/// Register all I/O classes into a Python sub-module; nothing needs to be
/// done without a Python runtime, so this changes nothing.
pub fn register_io_module(_m: &str) {
}

} // verus!
