//! The persisted settings: where the notes live, which classes there are,
//! and which editor opens a note.

use crate::class::{class_listing, Class};
use crate::obsidian::ObsidianPath;
use vstd::prelude::*;
use vstd::string::StringExecFns;

verus! {

/// How a note is opened: by a program given the note's path, or by a
/// program given a link into an Obsidian vault.
#[derive(Debug)]
pub enum Editor {
    Simple(String),
    Complex { program: String, uri: ObsidianPath },
}

impl Default for Editor {
    fn default() -> (e: Editor)
        ensures
            e is Simple,
            e.program()@.len() == 0,
    {
        Editor::Simple(String::new())
    }
}

impl Editor {
    /// The program that is started, whichever the kind of editor.
    pub open spec fn program(&self) -> String {
        match self {
            Editor::Simple(program) => *program,
            Editor::Complex { program, .. } => *program,
        }
    }

    pub fn is_simple(&self) -> (simple: bool)
        ensures
            simple == (self is Simple),
    {
        match self {
            Editor::Simple(_) => true,
            _ => false,
        }
    }

    pub fn get_program(&self) -> (program: &String)
        ensures
            *program == self.program(),
    {
        match self {
            Editor::Simple(e) => e,
            Editor::Complex { program, .. } => program,
        }
    }

    /// Replaces the program and keeps the kind of editor, and for an
    /// Obsidian editor its vault.
    pub fn set_program(&mut self, program: String)
        ensures
            final(self).program() == program,
            *old(self) is Simple ==> *final(self) is Simple,
            *old(self) is Complex ==> *final(self) is Complex && (*final(self))->uri == (*old(
                self,
            ))->uri,
    {
        match self {
            Editor::Simple(p) => {
                *p = program;
            },
            Editor::Complex { program: p, .. } => {
                *p = program;
            },
        }
    }
}

/// The listings of `classes`, one after the other.
pub open spec fn class_listings(classes: Seq<Class>) -> Seq<char>
    decreases classes.len(),
{
    if classes.len() == 0 {
        Seq::<char>::empty()
    } else {
        class_listings(classes.drop_last()) + class_listing(
            classes.last().name()@,
            classes.last().professor()@,
            classes.last().times(),
        )
    }
}

/// What is reported once the editor has been closed.
pub open spec fn exit_text(program: Seq<char>, success: bool) -> Seq<char> {
    program + " exited "@ + (if success {
        "successfully"@
    } else {
        "with an error."@
    }) + "."@
}

/// The report that `program` has exited, well or badly.
pub fn exit_report(program: &str, success: bool) -> (report: String)
    ensures
        report@ == exit_text(program@, success),
{
    let mut report = String::from_str(program);
    report.append(" exited ");
    if success {
        report.append("successfully");
    } else {
        report.append("with an error.");
    }
    report.append(".");
    report
}

/// The settings of one user.
#[derive(Debug)]
pub struct Config {
    root: String,
    classes: Vec<Class>,
    editor: Editor,
}

impl Default for Config {
    fn default() -> (c: Config)
        ensures
            c.root()@.len() == 0,
            c.classes()@.len() == 0,
            c.editor() is Simple,
            c.editor().program()@.len() == 0,
    {
        Config { root: String::new(), classes: Vec::new(), editor: Editor::Simple(String::new()) }
    }
}

impl Config {
    /// The directory below which all notes are kept.
    pub closed spec fn root(&self) -> String {
        self.root
    }

    /// The classes, in the order in which they were declared.
    pub closed spec fn classes(&self) -> Vec<Class> {
        self.classes
    }

    /// How notes are opened.
    pub closed spec fn editor(&self) -> Editor {
        self.editor
    }

    /// Whether no two classes share a name.
    pub open spec fn has_unique_names(&self) -> bool {
        forall|i: int, j: int|
            0 <= i < j < self.classes()@.len() ==> (#[trigger] self.classes()@[i]).name()@ != (
            #[trigger] self.classes()@[j]).name()@
    }

    /// The program that opens a note: the configured one, or, when none is
    /// configured, `fallback`, or `vim` when there is no fallback either.
    pub open spec fn editor_program(&self, fallback: Option<String>) -> Seq<char> {
        if self.editor().program()@.len() > 0 {
            self.editor().program()@
        } else {
            match fallback {
                Some(program) => program@,
                None => "vim"@,
            }
        }
    }

    pub fn new(root: String, classes: Vec<Class>, editor: String) -> (c: Config)
        ensures
            c.root() == root,
            c.classes() == classes,
            c.editor() == Editor::Simple(editor),
    {
        Config { root, classes, editor: Editor::Simple(editor) }
    }

    pub fn get_classes(&self) -> (classes: &Vec<Class>)
        ensures
            *classes == self.classes(),
    {
        &self.classes
    }

    pub fn set_root(&mut self, root: String)
        ensures
            final(self).root() == root,
            final(self).classes() == old(self).classes(),
            final(self).editor() == old(self).editor(),
    {
        self.root = root;
    }

    pub fn get_root(&self) -> (root: String)
        ensures
            root@ == self.root()@,
    {
        self.root.clone()
    }

    pub fn set_editor(&mut self, editor: Editor)
        ensures
            final(self).editor() == editor,
            final(self).root() == old(self).root(),
            final(self).classes() == old(self).classes(),
    {
        self.editor = editor;
    }

    pub fn get_editor(&self) -> (editor: &Editor)
        ensures
            *editor == self.editor(),
    {
        &self.editor
    }

    /// The program that opens a note. `fallback` is what the environment
    /// names as the editor, if it names one.
    pub fn get_editor_program(&self, fallback: Option<String>) -> (program: String)
        ensures
            program@ == self.editor_program(fallback),
    {
        let configured = self.editor.get_program();
        if configured.as_str().unicode_len() > 0 {
            configured.clone()
        } else {
            match fallback {
                Some(program) => program,
                None => String::from_str("vim"),
            }
        }
    }

    /// Adds a class after those already there.
    pub fn add_class(&mut self, class: Class)
        ensures
            final(self).classes()@ == old(self).classes()@.push(class),
            final(self).root() == old(self).root(),
            final(self).editor() == old(self).editor(),
    {
        self.classes.push(class);
    }

    /// Whether no two classes share a name.
    pub fn names_are_unique(&self) -> (unique: bool)
        ensures
            unique == self.has_unique_names(),
    {
        let mut j: usize = 0;
        while j < self.classes.len()
            invariant
                j <= self.classes.len(),
                forall|a: int, b: int|
                    0 <= a < b < j ==> (#[trigger] self.classes@[a]).name()@ != (
                    #[trigger] self.classes@[b]).name()@,
            decreases self.classes.len() - j,
        {
            let mut i: usize = 0;
            while i < j
                invariant
                    i <= j < self.classes.len(),
                    forall|a: int|
                        0 <= a < i ==> (#[trigger] self.classes@[a]).name()@
                            != self.classes@[j as int].name()@,
                decreases j - i,
            {
                if *self.classes[i].get_name() == *self.classes[j].get_name() {
                    assert(self.classes()@[i as int].name()@ == self.classes()@[j as int].name()@);
                    return false;
                }
                i += 1;
            }
            j += 1;
        }
        true
    }

    /// The list of classes as shown to the user: a heading, then the
    /// listing of each class.
    pub fn available_classes(&self) -> (listing: String)
        ensures
            listing@ == "Available classes:\n"@ + class_listings(self.classes()@),
    {
        let mut out = String::from_str("Available classes:\n");
        let mut i: usize = 0;
        assert(self.classes@.take(0) == Seq::<Class>::empty());
        while i < self.classes.len()
            invariant
                i <= self.classes.len(),
                out@ == "Available classes:\n"@ + class_listings(self.classes@.take(i as int)),
            decreases self.classes.len() - i,
        {
            out.append(self.classes[i].to_string().as_str());
            proof {
                assert(self.classes@.take(i + 1).drop_last() == self.classes@.take(i as int));
                assert(out@ =~= "Available classes:\n"@ + class_listings(
                    self.classes@.take(i + 1),
                ));
            }
            i += 1;
        }
        assert(self.classes@.take(self.classes@.len() as int) == self.classes@);
        out
    }
}

} // verus!
