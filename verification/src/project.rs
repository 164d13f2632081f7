//! A compose project that lies in a directory of its own and is run by the
//! stand-alone `docker-compose` program under a name that the caller picks.

use vstd::prelude::*;
use crate::docker::ComposeCommand;

verus! {

/// The stand-alone compose program.
pub const DOCKER_COMPOSE: &'static str = "docker-compose";

/// The arguments that start the services of the project `name` in the
/// background and wait until they run.
pub open spec fn project_up_args(name: Seq<char>) -> Seq<Seq<char>> {
    seq!["-p"@, name, "up"@, "-d"@, "--wait"@]
}

/// The arguments that stop the services of the project `name`.
pub open spec fn project_down_args(name: Seq<char>) -> Seq<Seq<char>> {
    seq!["-p"@, name, "down"@]
}

/// What `docker-compose` is called with: the directory of the project and
/// the name of the project.
pub struct DockerCompose {
    project_dir: String,
    project_name: String,
}

impl DockerCompose {
    /// The directory of the project.
    pub closed spec fn dir(&self) -> Seq<char> {
        self.project_dir@
    }

    /// The name of the project.
    pub closed spec fn name(&self) -> Seq<char> {
        self.project_name@
    }

    /// The project in `project_dir` under the name `project_name`.
    pub fn new(project_dir: &str, project_name: &str) -> (project: Self)
        ensures
            project.dir() == project_dir@,
            project.name() == project_name@,
    {
        Self {
            project_dir: String::from_str(project_dir),
            project_name: String::from_str(project_name),
        }
    }

    /// The command that starts the project.
    pub fn up(&self) -> (command: ComposeCommand)
        ensures
            command.program@ == DOCKER_COMPOSE@,
            command.current_dir@ == self.dir(),
            command.args.deep_view() == project_up_args(self.name()),
    {
        let mut args: Vec<String> = Vec::new();
        args.push(String::from_str("-p"));
        args.push(self.project_name.clone());
        args.push(String::from_str("up"));
        args.push(String::from_str("-d"));
        args.push(String::from_str("--wait"));
        assert(args.deep_view() =~= project_up_args(self.name()));
        ComposeCommand {
            program: String::from_str(DOCKER_COMPOSE),
            current_dir: self.project_dir.clone(),
            args,
        }
    }

    /// The command that stops the project.
    pub fn down(&self) -> (command: ComposeCommand)
        ensures
            command.program@ == DOCKER_COMPOSE@,
            command.current_dir@ == self.dir(),
            command.args.deep_view() == project_down_args(self.name()),
    {
        let mut args: Vec<String> = Vec::new();
        args.push(String::from_str("-p"));
        args.push(self.project_name.clone());
        args.push(String::from_str("down"));
        assert(args.deep_view() =~= project_down_args(self.name()));
        ComposeCommand {
            program: String::from_str(DOCKER_COMPOSE),
            current_dir: self.project_dir.clone(),
            args,
        }
    }
}

} // verus!
