//! The schema dialect: `model Name {` opens a block, each line inside it that
//! has at least two words declares a field, and a line that is exactly `}`
//! closes the block.

use crate::strings::{remove_all, split_words, trim, trimmed, views, without, words};
use crate::text::str_eq;
use vstd::prelude::*;
use vstd::string::{StrSliceExecFns, StringExecFns};

verus! {

/// One field of a model: its name, its type tag without the optional marker,
/// and whether the marker `?` followed the tag.
#[derive(Debug, PartialEq, Eq)]
pub struct Field {
    pub name: String,
    pub field_type: String,
    pub is_optional: bool,
}

/// What a [`Field`] holds, as mathematical values.
pub struct FieldView {
    pub name: Seq<char>,
    pub field_type: Seq<char>,
    pub is_optional: bool,
}

impl View for Field {
    type V = FieldView;

    open spec fn view(&self) -> FieldView {
        FieldView { name: self.name@, field_type: self.field_type@, is_optional: self.is_optional }
    }
}

/// One model of a schema: its name and its fields in the order of the schema.
#[derive(Debug, PartialEq, Eq)]
pub struct Model {
    pub name: String,
    pub fields: Vec<Field>,
}

/// What a [`Model`] holds, as mathematical values.
pub struct ModelView {
    pub name: Seq<char>,
    pub fields: Seq<FieldView>,
}

/// The views of a sequence of fields, in the same order.
pub open spec fn field_views(fields: Seq<Field>) -> Seq<FieldView> {
    fields.map_values(|f: Field| f@)
}

impl View for Model {
    type V = ModelView;

    open spec fn view(&self) -> ModelView {
        ModelView { name: self.name@, fields: field_views(self.fields@) }
    }
}

/// The views of a sequence of models, in the same order.
pub open spec fn model_views(models: Seq<Model>) -> Seq<ModelView> {
    models.map_values(|m: Model| m@)
}

/// One line of a schema as the grammar sees it: the line without the
/// whitespace around it, and the words of that.
#[derive(Debug, PartialEq, Eq)]
pub struct SchemaLine {
    pub text: String,
    pub tokens: Vec<String>,
}

/// What a [`SchemaLine`] holds, as mathematical values.
pub struct SchemaLineView {
    pub text: Seq<char>,
    pub tokens: Seq<Seq<char>>,
}

impl View for SchemaLine {
    type V = SchemaLineView;

    open spec fn view(&self) -> SchemaLineView {
        SchemaLineView { text: self.text@, tokens: views(self.tokens@) }
    }
}

/// The views of a sequence of lines, in the same order.
pub open spec fn line_views(lines: Seq<SchemaLine>) -> Seq<SchemaLineView> {
    lines.map_values(|l: SchemaLine| l@)
}

/// A raw line as the grammar sees it.
pub open spec fn scanned(line: Seq<char>) -> SchemaLineView {
    SchemaLineView { text: trimmed(line), tokens: words(trimmed(line)) }
}

/// Raw lines as the grammar sees them.
pub open spec fn scanned_lines(lines: Seq<Seq<char>>) -> Seq<SchemaLineView> {
    lines.map_values(|l: Seq<char>| scanned(l))
}

/// The field that the words of a line declare: the first word is its name,
/// the second its type tag, and a `?` at the end of the tag marks the field
/// as optional and is no part of the tag. Words after the second are
/// ignored. A line of fewer than two words declares nothing.
pub open spec fn field_of(tokens: Seq<Seq<char>>) -> Option<FieldView> {
    if tokens.len() >= 2 {
        let tag = tokens[1];
        let is_optional = tag.len() > 0 && tag.last() == '?';
        Some(
            FieldView {
                name: tokens[0],
                field_type: if is_optional {
                    tag.drop_last()
                } else {
                    tag
                },
                is_optional,
            },
        )
    } else {
        None
    }
}

/// [`field_of`] applied to the words of a line.
pub open spec fn field_in() -> spec_fn(SchemaLineView) -> Option<FieldView> {
    |line: SchemaLineView| field_of(line.tokens)
}

/// A line opens a block where its first word is `model`.
pub open spec fn opens_block(line: SchemaLineView) -> bool {
    line.tokens.len() >= 1 && line.tokens[0] == "model"@
}

/// A line closes a block where it is exactly `}`.
pub open spec fn closes_block(line: SchemaLineView) -> bool {
    line.text == "}"@
}

/// The number of lines from index `start` up to the first line that closes
/// a block, or up to the end where none does.
pub open spec fn body_len(lines: Seq<SchemaLineView>, start: int) -> nat
    decreases lines.len() - start,
{
    if start < 0 || start >= lines.len() || closes_block(lines[start]) {
        0
    } else {
        1 + body_len(lines, start + 1)
    }
}

/// The index of the first line after the block whose header is line
/// `header`: past the body and past the closing line, if there is one.
pub open spec fn block_end(lines: Seq<SchemaLineView>, header: int) -> int {
    let close = header + 1 + body_len(lines, header + 1);
    if close < lines.len() {
        close + 1
    } else {
        close
    }
}

/// The model of the block whose header is line `header`: named by the second
/// word of the header, with the fields that the lines of the body declare.
pub open spec fn block_model(lines: Seq<SchemaLineView>, header: int) -> ModelView {
    ModelView {
        name: lines[header].tokens[1],
        fields: lines.subrange(header + 1, header + 1 + body_len(lines, header + 1)).filter_map(
            field_in(),
        ),
    }
}

/// Whether every header that is met from line `start` on has a second word.
/// Lines inside a block are body, whatever they begin with.
pub open spec fn headers_named(lines: Seq<SchemaLineView>, start: int) -> bool
    decreases lines.len() - start,
{
    if start < 0 || start >= lines.len() {
        true
    } else if opens_block(lines[start]) {
        proof {
            lemma_body_len_bounds(lines, start + 1);
        }
        lines[start].tokens.len() >= 2 && headers_named(lines, block_end(lines, start))
    } else {
        headers_named(lines, start + 1)
    }
}

/// The models of the blocks that are met from line `start` on, in order.
/// Lines outside a block that open none are skipped.
pub open spec fn models_from(lines: Seq<SchemaLineView>, start: int) -> Seq<ModelView>
    decreases lines.len() - start,
{
    if start < 0 || start >= lines.len() {
        Seq::empty()
    } else if opens_block(lines[start]) {
        proof {
            lemma_body_len_bounds(lines, start + 1);
        }
        seq![block_model(lines, start)] + models_from(lines, block_end(lines, start))
    } else {
        models_from(lines, start + 1)
    }
}

/// The body of a block that starts at `start` ends at `end` where no line
/// in between closes a block and `end` is a closing line or the end.
pub proof fn lemma_body_len(lines: Seq<SchemaLineView>, start: int, end: int)
    requires
        0 <= start <= end <= lines.len(),
        forall|k: int| start <= k < end ==> !closes_block(#[trigger] lines[k]),
        end == lines.len() || closes_block(lines[end]),
    ensures
        body_len(lines, start) == end - start,
    decreases end - start,
{
    if start < end {
        lemma_body_len(lines, start + 1, end);
    }
}

/// The body of a block never reaches past the last line.
pub proof fn lemma_body_len_bounds(lines: Seq<SchemaLineView>, start: int)
    requires
        0 <= start <= lines.len(),
    ensures
        0 <= body_len(lines, start) <= lines.len() - start,
    decreases lines.len() - start,
{
    if start < lines.len() && !closes_block(lines[start]) {
        lemma_body_len_bounds(lines, start + 1);
    }
}

/// Prepares a raw line for the grammar: trims it and splits it into words.
pub fn scan_line(line: &str) -> (out: SchemaLine)
    ensures
        out@ == scanned(line@),
{
    let text = trim(line);
    let tokens = split_words(text.as_str());
    SchemaLine { text, tokens }
}

/// Prepares raw lines for the grammar, one by one.
pub fn scan_lines(lines: &Vec<String>) -> (out: Vec<SchemaLine>)
    ensures
        line_views(out@) == scanned_lines(views(lines@)),
{
    let mut out: Vec<SchemaLine> = Vec::new();
    let mut i: usize = 0;
    while i < lines.len()
        invariant
            i <= lines.len(),
            out@.len() == i,
            forall|k: int| 0 <= k < i ==> (#[trigger] out@[k])@ == scanned(lines@[k]@),
        decreases lines.len() - i,
    {
        out.push(scan_line(lines[i].as_str()));
        i += 1;
    }
    assert(line_views(out@) =~= scanned_lines(views(lines@)));
    out
}

/// The field that the words of a line declare, if they declare one.
pub fn field_from_tokens(tokens: &Vec<String>) -> (out: Option<Field>)
    ensures
        match out {
            Some(field) => field_of(views(tokens@)) == Some(field@),
            None => field_of(views(tokens@)) is None,
        },
{
    if tokens.len() < 2 {
        return None;
    }
    let tag = tokens[1].as_str();
    let len = tag.unicode_len();
    let is_optional = len > 0 && tag.get_char(len - 1) == '?';
    let field_type = if is_optional {
        tag.substring_char(0, len - 1).to_owned()
    } else {
        tag.to_owned()
    };
    Some(Field { name: tokens[0].clone(), field_type, is_optional })
}

/// The field that a line of a block declares, if it declares one.
pub fn parse_field(line: &str) -> (out: Option<Field>)
    ensures
        match out {
            Some(field) => field_of(words(line@)) == Some(field@),
            None => field_of(words(line@)) is None,
        },
{
    let parts = split_words(line);
    field_from_tokens(&parts)
}

/// Whether a prepared line opens a block.
pub fn is_header(line: &SchemaLine) -> (opens: bool)
    ensures
        opens == opens_block(line@),
{
    line.tokens.len() >= 1 && str_eq(line.tokens[0].as_str(), "model")
}

/// Whether every block header among `lines` names its model.
pub fn has_named_headers(lines: &Vec<SchemaLine>) -> (named: bool)
    ensures
        named == headers_named(line_views(lines@), 0),
{
    let ghost all = line_views(lines@);
    let mut i: usize = 0;
    while i < lines.len()
        invariant
            i <= lines.len(),
            all == line_views(lines@),
            headers_named(all, 0) == headers_named(all, i as int),
        decreases lines.len() - i,
    {
        if is_header(&lines[i]) {
            if lines[i].tokens.len() < 2 {
                return false;
            }
            let mut j: usize = i + 1;
            while j < lines.len() && !str_eq(lines[j].text.as_str(), "}")
                invariant
                    i < j <= lines.len(),
                    all == line_views(lines@),
                    forall|k: int| i < k < j ==> !closes_block(#[trigger] all[k]),
                decreases lines.len() - j,
            {
                j += 1;
            }
            proof {
                lemma_body_len(all, i + 1, j as int);
            }
            i = if j < lines.len() {
                j + 1
            } else {
                j
            };
        } else {
            i += 1;
        }
    }
    true
}

/// The models that prepared lines declare, in order.
pub fn models_of(lines: &Vec<SchemaLine>) -> (models: Vec<Model>)
    requires
        headers_named(line_views(lines@), 0),
    ensures
        model_views(models@) == models_from(line_views(lines@), 0),
{
    let ghost all = line_views(lines@);
    let mut models: Vec<Model> = Vec::new();
    let mut i: usize = 0;
    assert(model_views(models@) + models_from(all, 0) =~= models_from(all, 0));
    while i < lines.len()
        invariant
            i <= lines.len(),
            all == line_views(lines@),
            headers_named(all, i as int),
            models_from(all, 0) == model_views(models@) + models_from(all, i as int),
        decreases lines.len() - i,
    {
        if is_header(&lines[i]) {
            let name = lines[i].tokens[1].clone();
            let mut fields: Vec<Field> = Vec::new();
            let mut j: usize = i + 1;
            assert(all.subrange(i + 1, j as int).filter_map(field_in()) =~= field_views(fields@));
            while j < lines.len() && !str_eq(lines[j].text.as_str(), "}")
                invariant
                    i < j <= lines.len(),
                    all == line_views(lines@),
                    forall|k: int| i < k < j ==> !closes_block(#[trigger] all[k]),
                    field_views(fields@) == all.subrange(i + 1, j as int).filter_map(field_in()),
                decreases lines.len() - j,
            {
                let ghost body = all.subrange(i + 1, j + 1);
                let ghost old_fields = field_views(fields@);
                assert(body.drop_last() =~= all.subrange(i + 1, j as int));
                assert(body.last() == all[j as int]);
                match field_from_tokens(&lines[j].tokens) {
                    Some(field) => {
                        fields.push(field);
                        assert(field_views(fields@) =~= old_fields + seq![field@]);
                    },
                    None => {},
                }
                j += 1;
            }
            proof {
                lemma_body_len(all, i + 1, j as int);
            }
            let ghost before = model_views(models@);
            models.push(Model { name, fields });
            proof {
                let model = block_model(all, i as int);
                assert(models@.last()@ == model);
                assert(model_views(models@) =~= before.push(model));
                assert(before + (seq![model] + models_from(all, block_end(all, i as int)))
                    =~= before.push(model) + models_from(all, block_end(all, i as int)));
            }
            i = if j < lines.len() {
                j + 1
            } else {
                j
            };
        } else {
            i += 1;
        }
    }
    assert(model_views(models@) + models_from(all, i as int) =~= model_views(models@));
    models
}

/// The models that the lines of a schema declare, in order.
///
/// A line whose first word is `model` opens a block, and its second word
/// names the model; the lines up to the next line that is exactly `}` are the
/// block's body, and each of them with two words or more declares a field.
/// Whitespace around a line does not count. A schema in which a header has
/// no second word has no models at all and is left to
/// [`try_parse_schema`].
pub fn parse_schema(lines: &Vec<String>) -> (models: Vec<Model>)
    requires
        headers_named(scanned_lines(views(lines@)), 0),
    ensures
        model_views(models@) == models_from(scanned_lines(views(lines@)), 0),
{
    let prepared = scan_lines(lines);
    models_of(&prepared)
}

/// The models that the lines of a schema declare, or nothing where a block
/// header names no model.
pub fn try_parse_schema(lines: &Vec<String>) -> (out: Option<Vec<Model>>)
    ensures
        out is Some == headers_named(scanned_lines(views(lines@)), 0),
        out matches Some(models) ==> model_views(models@) == models_from(
            scanned_lines(views(lines@)),
            0,
        ),
{
    let prepared = scan_lines(lines);
    if has_named_headers(&prepared) {
        Some(parse_schema(lines))
    } else {
        None
    }
}

/// One path alias of a TypeScript configuration: the key `@<module>/*` and
/// the base paths it stands for, each ending in `*`.
#[derive(Debug, PartialEq, Eq)]
pub struct PathAlias {
    pub key: String,
    pub targets: Vec<String>,
}

/// What a [`PathAlias`] holds, as mathematical values.
pub struct PathAliasView {
    pub key: Seq<char>,
    pub targets: Seq<Seq<char>>,
}

impl View for PathAlias {
    type V = PathAliasView;

    open spec fn view(&self) -> PathAliasView {
        PathAliasView { key: self.key@, targets: views(self.targets@) }
    }
}

/// The compiler options of a TypeScript configuration, as far as they
/// matter here: the path aliases.
#[derive(Debug, PartialEq, Eq)]
pub struct TsConfigCompilerOptions {
    pub paths: Vec<PathAlias>,
}

/// A TypeScript configuration, as far as it matters here.
#[derive(Debug, PartialEq, Eq)]
pub struct TsConfig {
    pub compiler_options: TsConfigCompilerOptions,
}

impl View for TsConfig {
    type V = Seq<PathAliasView>;

    open spec fn view(&self) -> Seq<PathAliasView> {
        self.compiler_options.paths@.map_values(|alias: PathAlias| alias@)
    }
}

/// The module that an alias key names: the key without `@` and `/*`.
pub open spec fn module_of(key: Seq<char>) -> Seq<char> {
    without(without(key, "@"@), "/*"@)
}

/// The alias key of a module.
pub open spec fn key_of(module: Seq<char>) -> Seq<char> {
    "@"@ + module + "/*"@
}

/// The index of the first alias with the key `key`, if there is one.
pub open spec fn alias_index(aliases: Seq<PathAliasView>, key: Seq<char>) -> Option<int> {
    if exists|i: int| 0 <= i < aliases.len() && aliases[i].key == key {
        Some(
            choose|i: int|
                0 <= i < aliases.len() && aliases[i].key == key && forall|j: int|
                    0 <= j < i ==> aliases[j].key != key,
        )
    } else {
        None
    }
}

/// The first base path of the alias of `module`, as the configuration
/// spells it. There is none where no alias has the module's key, or where
/// the alias stands for no path.
pub open spec fn target_of(aliases: Seq<PathAliasView>, module: Seq<char>) -> Option<Seq<char>> {
    match alias_index(aliases, key_of(module)) {
        Some(i) => if aliases[i].targets.len() > 0 {
            Some(aliases[i].targets[0])
        } else {
            None
        },
        None => None,
    }
}

impl TsConfig {
    /// No key occurs twice among the aliases.
    pub open spec fn wf(&self) -> bool {
        forall|i: int, j: int|
            0 <= i < j < self@.len() ==> (#[trigger] self@[i]).key != (#[trigger] self@[j]).key
    }

    /// The configuration to fall back on: the one alias `@src/*` for the
    /// source root `src/*`.
    pub fn default() -> (config: TsConfig)
        ensures
            config.wf(),
            config@ == seq![PathAliasView { key: "@src/*"@, targets: seq!["src/*"@] }],
    {
        let mut targets: Vec<String> = Vec::new();
        targets.push("src/*".to_owned());
        let mut paths: Vec<PathAlias> = Vec::new();
        paths.push(PathAlias { key: "@src/*".to_owned(), targets });
        let config = TsConfig { compiler_options: TsConfigCompilerOptions { paths } };
        assert(config@[0].targets =~= seq!["src/*"@]);
        assert(config@ =~= seq![PathAliasView { key: "@src/*"@, targets: seq!["src/*"@] }]);
        config
    }

    /// The configuration to work with: the one that was found, or, where
    /// none could be read, the one to fall back on.
    pub fn or_default(found: Option<TsConfig>) -> (config: TsConfig)
        ensures
            match found {
                Some(given) => config == given,
                None => config.wf() && config@ == seq![
                    PathAliasView { key: "@src/*"@, targets: seq!["src/*"@] },
                ],
            },
    {
        match found {
            Some(given) => given,
            None => TsConfig::default(),
        }
    }

    /// The modules that the aliases name, in the order of the aliases.
    pub fn modules(&self) -> (names: Vec<String>)
        ensures
            views(names@) == self@.map_values(|alias: PathAliasView| module_of(alias.key)),
    {
        let mut names: Vec<String> = Vec::new();
        let mut i: usize = 0;
        while i < self.compiler_options.paths.len()
            invariant
                i <= self.compiler_options.paths.len(),
                names@.len() == i,
                forall|k: int| 0 <= k < i ==> (#[trigger] names@[k])@ == module_of(self@[k].key),
            decreases self.compiler_options.paths.len() - i,
        {
            let key = self.compiler_options.paths[i].key.as_str();
            let bare = remove_all(key, "@");
            names.push(remove_all(bare.as_str(), "/*"));
            i += 1;
        }
        assert(views(names@) =~= self@.map_values(|alias: PathAliasView| module_of(alias.key)));
        names
    }

    /// The first base path of the alias of `module`, as the configuration
    /// spells it.
    pub fn target(&self, module: &str) -> (out: Option<String>)
        ensures
            match out {
                Some(path) => target_of(self@, module@) == Some(path@),
                None => target_of(self@, module@) is None,
            },
    {
        let mut key = "@".to_owned();
        key.append(module);
        key.append("/*");
        let paths = &self.compiler_options.paths;
        let mut i: usize = 0;
        while i < paths.len()
            invariant
                i <= paths.len(),
                paths == &self.compiler_options.paths,
                key@ == key_of(module@),
                forall|j: int| 0 <= j < i ==> self@[j].key != key@,
            decreases paths.len() - i,
        {
            if str_eq(paths[i].key.as_str(), key.as_str()) {
                assert(self@[i as int].key == key@);
                assert(alias_index(self@, key@) == Some(i as int));
                assert(self@[i as int].targets == views(paths[i as int].targets@));
                if paths[i].targets.len() > 0 {
                    return Some(paths[i].targets[0].clone());
                } else {
                    return None;
                }
            }
            i += 1;
        }
        None
    }

    /// The base path of `module`: the first path of its alias, without the
    /// `*`.
    pub fn base_path(&self, module: &str) -> (out: Option<String>)
        ensures
            match out {
                Some(path) => target_of(self@, module@) is Some && path@ == without(
                    target_of(self@, module@)->0,
                    "*"@,
                ),
                None => target_of(self@, module@) is None,
            },
    {
        match self.target(module) {
            Some(path) => Some(remove_all(path.as_str(), "*")),
            None => None,
        }
    }
}

} // verus!
