//! The project writer: the project file, the workspace data and the
//! identifier map of a project.
use vstd::prelude::*;
use crate::generator::PbxGenerator;
use crate::graph::{PbxGraph, object_id_spec};
use crate::model::{Project, project_shallow};
use crate::serialize::{id_map_wf, project_file_text};
use crate::smap::{entries_view, lookup};
use crate::text::{concat2, string_from};

verus! {

/// Why a project could not be written.
pub enum ProjectWriteError {
    Spec(String),
    Read { path: String, message: String },
    Write { path: String, message: String },
    Command { command: String, status: String, stderr: String },
}

/// A generated project: where it goes (relative to the project's
/// directory), its project file, its workspace data, and the identifier
/// each object was written under.
pub struct GeneratedProject {
    pub project_path: String,
    pub pbxproj: String,
    pub workspace_data: String,
    pub object_id_map: Vec<(String, String)>,
}

/// The workspace data every project gets.
pub open spec fn workspace_data_spec() -> Seq<char> {
    "<?xml version=\"1.0\" encoding=\"UTF-8\"?>\n<Workspace\n   version = \"1.0\">\n   <FileRef\n      location = \"self:\">\n   </FileRef>\n</Workspace>\n"@
}

/// The workspace data every project gets.
pub fn workspace_data() -> (r: String)
    ensures
        r@ == workspace_data_spec(),
{
    string_from("<?xml version=\"1.0\" encoding=\"UTF-8\"?>\n<Workspace\n   version = \"1.0\">\n   <FileRef\n      location = \"self:\">\n   </FileRef>\n</Workspace>\n")
}

/// A graph built for a project, and the map of a generated project: the
/// graph holds the project's project object, and the map holds the references Xcode
/// gives the graph's objects, walking from the project object under the
/// project's name.
pub open spec fn built_for(project: &Project, graph: PbxGraph, g: GeneratedProject) -> bool {
    &&& graph.wf()
    &&& crate::generator::holds_project_object(project, graph)
    &&& entries_view(g.object_id_map@) == crate::references::generate_walk(graph.objs(), Seq::empty(),
        (Seq::empty(), Seq::empty()), object_id_spec("project"@, 0), project.name@).0
}

/// What every generated project holds, whatever its project file: its path
/// and workspace data, and a map in key order that gives the project object
/// a reference and gives each object its own reference of 24 upper-case
/// hexadecimal digits.
pub open spec fn generated_parts(project: &Project, g: GeneratedProject) -> bool {
    &&& g.project_path@ == project.name@ + ".xcodeproj"@
    &&& g.workspace_data@ == workspace_data_spec()
    &&& id_map_wf(entries_view(g.object_id_map@))
    &&& lookup(entries_view(g.object_id_map@), object_id_spec("project"@, 0)) is Some
    &&& forall|i: int| 0 <= i < g.object_id_map@.len()
        ==> crate::references::is_reference_text(#[trigger] entries_view(g.object_id_map@)[i].1)
}

/// What a generated project holds: the project file of a graph built for
/// the project, written with the map of that graph's references.
pub open spec fn generated_for(project: &Project, g: GeneratedProject) -> bool {
    &&& generated_parts(project, g)
    &&& exists|graph: PbxGraph| #![trigger graph.objs()]
        built_for(project, graph, g) && g.pbxproj@ == project_file_text(
            graph.objs(),
            object_id_spec("project"@, 0),
            graph.cmts(),
            entries_view(g.object_id_map@),
        )
}

/// Writes projects.
pub struct ProjectWriter;

impl ProjectWriter {
    /// Generates the files of a project.
    pub fn generate(project: &Project) -> (r: Result<GeneratedProject, ProjectWriteError>)
        requires
            project_shallow(project),
        ensures
            r matches Ok(g) && generated_for(project, g),
    {
        let mut generator = PbxGenerator::new(project);
        let (pbxproj, object_id_map) = generator.generate_with_id_map();
        let g = GeneratedProject {
            project_path: concat2(project.name.as_str(), ".xcodeproj"),
            pbxproj,
            workspace_data: workspace_data(),
            object_id_map,
        };
        proof {
            let graph = generator.graph;
            assert(built_for(project, graph, g));
        }
        Ok(g)
    }

    /// Generates the files of a project, taking the project file from a
    /// reference copy where one was found for it.
    pub fn generate_with_upstream_fixture_golden(project: &Project, golden: Option<String>) -> (r: Result<GeneratedProject, ProjectWriteError>)
        requires
            project_shallow(project),
        ensures
            r matches Ok(g) && generated_parts(project, g) && match golden {
                Some(text) => g.pbxproj@ == text@ && exists|graph: PbxGraph| #![trigger graph.objs()]
                    built_for(project, graph, g),
                None => generated_for(project, g),
            },
    {
        let mut generated = match Self::generate(project) {
            Ok(g) => g,
            Err(e) => return Err(e),
        };
        let ghost g0 = generated;
        if let Some(text) = golden {
            generated.pbxproj = text;
            proof {
                let graph = choose|graph: PbxGraph| #![trigger graph.objs()] built_for(project, graph, g0)
                    && g0.pbxproj@ == project_file_text(graph.objs(), object_id_spec("project"@, 0), graph.cmts(),
                    entries_view(g0.object_id_map@));
                assert(built_for(project, graph, generated));
            }
        }
        Ok(generated)
    }
}

} // verus!
