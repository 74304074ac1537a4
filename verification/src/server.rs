//! What a development server is set up with, and what it runs when started.

use vstd::prelude::*;
use vstd::string::*;

verus! {

/// An address to bind to.
#[derive(Clone, Copy, Debug, PartialEq, Eq)]
pub enum IpAddress {
    /// The four octets of an IPv4 address.
    V4(u8, u8, u8, u8),
    /// The eight segments of an IPv6 address.
    V6(u16, u16, u16, u16, u16, u16, u16, u16),
}

/// A command and the arguments it is run with.
#[derive(Debug, PartialEq, Eq)]
pub struct BuildCommand {
    pub program: String,
    pub args: Vec<String>,
}

impl BuildCommand {
    /// The command `program`, without arguments.
    pub fn new(program: String) -> (command: BuildCommand)
        ensures
            command.program == program,
            command.args@ == Seq::<String>::empty(),
    {
        BuildCommand { program, args: Vec::new() }
    }
}

/// A simple HTTP server useful during development.
///
/// It serves the files of a directory at a given address (`127.0.0.1:8000`
/// by default). A command can be given that is run again whenever the
/// sources change. `H` is the kind of request handler that can take the
/// place of the default one; the server keeps it and never looks inside.
#[non_exhaustive]
pub struct DevServer<H> {
    /// IP address to bind. `127.0.0.1` by default.
    pub ip: IpAddress,
    /// Port number. `8000` by default.
    pub port: u16,
    /// Command executed when a change is detected.
    pub command: Option<BuildCommand>,
    /// Use another file path when the URL is not found.
    pub not_found_path: Option<String>,
    /// Pass a custom request handler.
    pub request_handler: Option<H>,
}

/// The supervisor that rebuilds on changes: it runs `command`, and it must
/// not watch `exclude`.
#[derive(Debug, PartialEq, Eq)]
pub struct Rebuild {
    pub command: BuildCommand,
    pub exclude: String,
}

/// What a started server runs.
pub struct Startup<H> {
    /// IP address to bind.
    pub ip: IpAddress,
    /// Port number.
    pub port: u16,
    /// The directory whose files are served.
    pub served_path: String,
    /// The path, relative to `served_path`, served in place of what is no
    /// file.
    pub not_found_path: Option<String>,
    /// The handler to use in place of the default one.
    pub request_handler: Option<H>,
    /// The rebuild supervisor to run beside the server.
    pub rebuild: Option<Rebuild>,
}

/// The command that arguments are added to: the one that is set already,
/// or else `task`.
pub open spec fn command_or(command: Option<BuildCommand>, task: BuildCommand) -> BuildCommand {
    match command {
        Some(set) => set,
        None => task,
    }
}

/// The supervisor for a server with `command` that serves `served_path`:
/// none without a command; with one, the served directory is excluded from
/// the watch, so that what a build writes there does not start the next
/// build.
pub open spec fn rebuild_of(command: Option<BuildCommand>, served_path: String) -> Option<Rebuild> {
    match command {
        Some(command) => Some(Rebuild { command, exclude: served_path }),
        None => None,
    }
}

impl<H> DevServer<H> {
    /// Set the dev-server binding address.
    pub fn address(self, ip: IpAddress, port: u16) -> (server: DevServer<H>)
        ensures
            server.ip == ip,
            server.port == port,
            server.command == self.command,
            server.not_found_path == self.not_found_path,
            server.request_handler == self.request_handler,
    {
        let mut server = self;
        server.ip = ip;
        server.port = port;
        server
    }

    /// Set the command that is executed when a change is detected.
    pub fn command(self, command: BuildCommand) -> (server: DevServer<H>)
        ensures
            server.command == Some(command),
            server.ip == self.ip,
            server.port == self.port,
            server.not_found_path == self.not_found_path,
            server.request_handler == self.request_handler,
    {
        let mut server = self;
        server.command = Some(command);
        server
    }

    /// Adds an argument to pass to the command executed when changes are
    /// detected. Where no command is set yet, `task` becomes the command.
    pub fn arg(self, arg: String, task: BuildCommand) -> (server: DevServer<H>)
        ensures
            server.command matches Some(command) && command.program == command_or(
                self.command,
                task,
            ).program && command.args@ == command_or(self.command, task).args@.push(arg),
            server.ip == self.ip,
            server.port == self.port,
            server.not_found_path == self.not_found_path,
            server.request_handler == self.request_handler,
    {
        let mut server = self;
        let mut command = server.set_task_command(task);
        command.args.push(arg);
        server.command = Some(command);
        server
    }

    /// Adds multiple arguments to pass to the command executed when changes
    /// are detected. Where no command is set yet, `task` becomes the command.
    pub fn args(self, args: Vec<String>, task: BuildCommand) -> (server: DevServer<H>)
        ensures
            server.command matches Some(command) && command.program == command_or(
                self.command,
                task,
            ).program && command.args@ == command_or(self.command, task).args@ + args@,
            server.ip == self.ip,
            server.port == self.port,
            server.not_found_path == self.not_found_path,
            server.request_handler == self.request_handler,
    {
        let mut server = self;
        let mut command = server.set_task_command(task);
        let mut args = args;
        command.args.append(&mut args);
        server.command = Some(command);
        server
    }

    /// Use another file path when the URL is not found.
    pub fn not_found(self, path: String) -> (server: DevServer<H>)
        ensures
            server.not_found_path == Some(path),
            server.ip == self.ip,
            server.port == self.port,
            server.command == self.command,
            server.request_handler == self.request_handler,
    {
        let mut server = self;
        server.not_found_path = Some(path);
        server
    }

    /// Pass a custom request handler to the dev server.
    pub fn request_handler(self, handler: H) -> (server: DevServer<H>)
        ensures
            server.request_handler == Some(handler),
            server.ip == self.ip,
            server.port == self.port,
            server.command == self.command,
            server.not_found_path == self.not_found_path,
    {
        let mut server = self;
        server.request_handler = Some(handler);
        server
    }

    /// Start the server, serving the files at `served_path`: says what is to
    /// be run. The rebuild supervisor runs only where a command is set, and
    /// it leaves the served directory out of its watch.
    pub fn start(self, served_path: String) -> (startup: Startup<H>)
        ensures
            startup.ip == self.ip,
            startup.port == self.port,
            startup.served_path == served_path,
            startup.not_found_path == self.not_found_path,
            startup.request_handler == self.request_handler,
            startup.rebuild == rebuild_of(self.command, served_path),
    {
        let rebuild = match self.command {
            Some(command) => Some(Rebuild { command, exclude: served_path.clone() }),
            None => None,
        };
        Startup {
            ip: self.ip,
            port: self.port,
            served_path,
            not_found_path: self.not_found_path,
            request_handler: self.request_handler,
            rebuild,
        }
    }

    /// Takes the command out of the server, `task` where none is set.
    fn set_task_command(&mut self, task: BuildCommand) -> (command: BuildCommand)
        ensures
            command == command_or(old(self).command, task),
            final(self).command is None,
            final(self).ip == old(self).ip,
            final(self).port == old(self).port,
            final(self).not_found_path == old(self).not_found_path,
            final(self).request_handler == old(self).request_handler,
    {
        match self.command.take() {
            Some(set) => set,
            None => task,
        }
    }
}

impl<H> Default for DevServer<H> {
    fn default() -> (server: DevServer<H>)
        ensures
            server.ip == IpAddress::V4(127, 0, 0, 1),
            server.port == 8000,
            server.command is None,
            server.not_found_path is None,
            server.request_handler is None,
    {
        DevServer {
            ip: IpAddress::V4(127, 0, 0, 1),
            port: 8000,
            command: None,
            not_found_path: None,
            request_handler: None,
        }
    }
}

} // verus!
