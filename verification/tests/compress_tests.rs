use flat::compress::{
    compress_source, language_for_extension, language_for_path, CompressLanguage, CompressResult,
};

// Language detection tests
#[test]
fn test_language_for_extension() {
    assert_eq!(language_for_extension("rs"), Some(CompressLanguage::Rust));
    assert_eq!(
        language_for_extension("ts"),
        Some(CompressLanguage::TypeScript)
    );
    assert_eq!(language_for_extension("tsx"), Some(CompressLanguage::Tsx));
    assert_eq!(
        language_for_extension("js"),
        Some(CompressLanguage::JavaScript)
    );
    assert_eq!(language_for_extension("jsx"), Some(CompressLanguage::Jsx));
    assert_eq!(language_for_extension("py"), Some(CompressLanguage::Python));
    assert_eq!(language_for_extension("go"), Some(CompressLanguage::Go));
    assert_eq!(language_for_extension("md"), None);
    assert_eq!(language_for_extension("toml"), None);
}

#[test]
fn test_language_for_path() {
    assert_eq!(
        language_for_path("main.rs"),
        Some(CompressLanguage::Rust)
    );
    assert_eq!(
        language_for_path("foo.test.ts"),
        Some(CompressLanguage::TypeScript)
    );
    assert_eq!(language_for_path("Makefile"), None);
    assert_eq!(language_for_path("README.md"), None);
}

// Rust compression tests
#[test]
fn test_compress_rust_function() {
    let source = r#"fn hello(name: &str) -> String {
    let greeting = format!("Hello, {}!", name);
    println!("{}", greeting);
    greeting
}"#;
    match compress_source(source, CompressLanguage::Rust) {
        CompressResult::Compressed(output) => {
            assert!(output.contains("fn hello(name: &str) -> String"));
            assert!(output.contains("{ ... }"));
            assert!(!output.contains("let greeting"));
        }
        CompressResult::Fallback(_, reason) => {
            panic!("Expected compression, got fallback: {:?}", reason)
        }
    }
}

#[test]
fn test_compress_rust_struct() {
    let source = r#"pub struct Config {
    pub path: String,
    pub verbose: bool,
}"#;
    match compress_source(source, CompressLanguage::Rust) {
        CompressResult::Compressed(output) => {
            assert!(output.contains("pub struct Config"));
            assert!(output.contains("pub path: String"));
            assert!(output.contains("pub verbose: bool"));
        }
        CompressResult::Fallback(_, _) => panic!("Expected compression"),
    }
}

#[test]
fn test_compress_rust_impl() {
    let source = r#"impl Config {
    pub fn new() -> Self {
        Self { path: String::new(), verbose: false }
    }

    pub fn validate(&self) -> bool {
        !self.path.is_empty()
    }
}"#;
    match compress_source(source, CompressLanguage::Rust) {
        CompressResult::Compressed(output) => {
            assert!(output.contains("impl Config"));
            assert!(output.contains("pub fn new() -> Self { ... }"));
            assert!(output.contains("pub fn validate(&self) -> bool { ... }"));
            assert!(!output.contains("is_empty"));
        }
        CompressResult::Fallback(_, _) => panic!("Expected compression"),
    }
}

#[test]
fn test_compress_rust_use_and_const() {
    let source = r#"use std::path::Path;
use std::collections::HashMap;

const MAX_SIZE: usize = 1024;

fn process() {
    // complex logic
    println!("processing");
}"#;
    match compress_source(source, CompressLanguage::Rust) {
        CompressResult::Compressed(output) => {
            assert!(output.contains("use std::path::Path;"));
            assert!(output.contains("use std::collections::HashMap;"));
            assert!(output.contains("const MAX_SIZE: usize = 1024;"));
            assert!(output.contains("fn process() { ... }"));
        }
        CompressResult::Fallback(_, _) => panic!("Expected compression"),
    }
}

#[test]
fn test_compress_rust_trait() {
    let source = r#"pub trait Compressor {
    fn name(&self) -> &str;
    fn compress(&self, source: &str) -> String {
        source.to_string()
    }
}"#;
    match compress_source(source, CompressLanguage::Rust) {
        CompressResult::Compressed(output) => {
            assert!(output.contains("pub trait Compressor"));
            assert!(output.contains("fn name(&self) -> &str;"));
            assert!(output.contains("fn compress(&self, source: &str) -> String { ... }"));
        }
        CompressResult::Fallback(_, _) => panic!("Expected compression"),
    }
}

// TypeScript compression tests
#[test]
fn test_compress_typescript_function() {
    let source = r#"import { Config } from './config';

function processData(data: string[]): number {
    const filtered = data.filter(x => x.length > 0);
    return filtered.length;
}

export default processData;"#;
    match compress_source(source, CompressLanguage::TypeScript) {
        CompressResult::Compressed(output) => {
            assert!(output.contains("import { Config }"));
            assert!(output.contains("function processData(data: string[]): number { ... }"));
            assert!(output.contains("export default processData;"));
            assert!(!output.contains("filtered"));
        }
        CompressResult::Fallback(_, reason) => {
            panic!("Expected compression, got fallback: {:?}", reason)
        }
    }
}

#[test]
fn test_compress_typescript_class() {
    let source = r#"class UserService {
    private db: Database;

    constructor(db: Database) {
        this.db = db;
    }

    async getUser(id: string): Promise<User> {
        const user = await this.db.find(id);
        if (!user) throw new Error('Not found');
        return user;
    }
}"#;
    match compress_source(source, CompressLanguage::TypeScript) {
        CompressResult::Compressed(output) => {
            assert!(output.contains("class UserService"));
            assert!(output.contains("{ ... }"));
            assert!(!output.contains("throw new Error"));
        }
        CompressResult::Fallback(_, _) => panic!("Expected compression"),
    }
}

#[test]
fn test_compress_typescript_interface() {
    let source = r#"interface User {
    id: string;
    name: string;
    email: string;
}"#;
    match compress_source(source, CompressLanguage::TypeScript) {
        CompressResult::Compressed(output) => {
            assert!(output.contains("interface User"));
            assert!(output.contains("id: string"));
        }
        CompressResult::Fallback(_, _) => panic!("Expected compression"),
    }
}

// Python compression tests
#[test]
fn test_compress_python_function() {
    let source = r#"import os
from pathlib import Path

def process_file(path: str) -> bool:
    """Process a single file."""
    content = Path(path).read_text()
    lines = content.splitlines()
    return len(lines) > 0"#;
    match compress_source(source, CompressLanguage::Python) {
        CompressResult::Compressed(output) => {
            assert!(output.contains("import os"));
            assert!(output.contains("from pathlib import Path"));
            assert!(output.contains("def process_file(path: str) -> bool:"));
            assert!(output.contains("\"\"\"Process a single file.\"\"\""));
            assert!(output.contains("..."));
            assert!(!output.contains("splitlines"));
        }
        CompressResult::Fallback(_, reason) => {
            panic!("Expected compression, got fallback: {:?}", reason)
        }
    }
}

#[test]
fn test_compress_python_class() {
    let source = r#"class Config:
    """Configuration container."""
    DEFAULT_SIZE = 1024

    def __init__(self, path: str):
        self.path = path
        self.size = self.DEFAULT_SIZE

    def validate(self) -> bool:
        return os.path.exists(self.path)"#;
    match compress_source(source, CompressLanguage::Python) {
        CompressResult::Compressed(output) => {
            assert!(output.contains("class Config:"));
            assert!(output.contains("\"\"\"Configuration container.\"\"\""));
            assert!(output.contains("DEFAULT_SIZE = 1024"));
            assert!(output.contains("def __init__(self, path: str):"));
            assert!(output.contains("def validate(self) -> bool:"));
            assert!(!output.contains("os.path.exists"));
        }
        CompressResult::Fallback(_, _) => panic!("Expected compression"),
    }
}

// Go compression tests
#[test]
fn test_compress_go_function() {
    let source = r#"package main

import "fmt"

// ProcessData handles incoming data
func ProcessData(data []string) int {
	filtered := make([]string, 0)
	for _, d := range data {
		if len(d) > 0 {
			filtered = append(filtered, d)
		}
	}
	return len(filtered)
}"#;
    match compress_source(source, CompressLanguage::Go) {
        CompressResult::Compressed(output) => {
            assert!(output.contains("package main"));
            assert!(output.contains("import \"fmt\""));
            assert!(output.contains("// ProcessData handles incoming data"));
            assert!(output.contains("func ProcessData(data []string) int { ... }"));
            assert!(!output.contains("filtered"));
        }
        CompressResult::Fallback(_, reason) => {
            panic!("Expected compression, got fallback: {:?}", reason)
        }
    }
}

#[test]
fn test_compress_go_struct_and_method() {
    let source = r#"package main

type Config struct {
	Path    string
	Verbose bool
}

func (c *Config) Validate() bool {
	return c.Path != ""
}"#;
    match compress_source(source, CompressLanguage::Go) {
        CompressResult::Compressed(output) => {
            assert!(output.contains("type Config struct"));
            assert!(output.contains("Path    string"));
            assert!(output.contains("func (c *Config) Validate() bool { ... }"));
        }
        CompressResult::Fallback(_, _) => panic!("Expected compression"),
    }
}

// Fallback tests
#[test]
fn test_compress_empty_source() {
    match compress_source("", CompressLanguage::Rust) {
        CompressResult::Compressed(output) => assert!(output.is_empty()),
        CompressResult::Fallback(_, _) => panic!("Empty source should return empty compressed"),
    }
}

#[test]
fn test_compress_bom_stripped() {
    let source = "\u{FEFF}fn main() {\n    println!(\"hello\");\n}";
    match compress_source(source, CompressLanguage::Rust) {
        CompressResult::Compressed(output) => {
            assert!(!output.starts_with('\u{FEFF}'));
            assert!(output.contains("fn main()"));
        }
        CompressResult::Fallback(_, _) => panic!("Expected compression"),
    }
}

#[test]
fn test_compress_only_comments() {
    let source = "// This is a comment\n// Another comment\n";
    match compress_source(source, CompressLanguage::Rust) {
        CompressResult::Compressed(output) => {
            assert!(output.contains("// This is a comment"));
            assert!(output.contains("// Another comment"));
        }
        CompressResult::Fallback(_, _) => {
            panic!("Comments-only should compress (keeping comments)")
        }
    }
}

#[test]
fn compress_test_compress_typescript_export_function() {
    let source = r#"import { Config } from './config';

export function processData(data: string[]): number {
    const filtered = data.filter(x => x.length > 0);
    return filtered.length;
}"#;
    match compress_source(source, CompressLanguage::TypeScript) {
        CompressResult::Compressed(output) => {
            assert!(output.contains("import { Config }"));
            assert!(
                output.contains("export function processData(data: string[]): number { ... }"),
                "export function should be compressed, got: {}",
                output
            );
            assert!(
                !output.contains("filtered"),
                "export function body should be stripped"
            );
        }
        CompressResult::Fallback(_, reason) => {
            panic!("Expected compression, got fallback: {:?}", reason)
        }
    }
}

#[test]
fn test_compress_typescript_export_class() {
    let source = r#"export class UserService {
    private db: Database;

    constructor(db: Database) {
        this.db = db;
    }

    async getUser(id: string): Promise<User> {
        const user = await this.db.find(id);
        return user;
    }
}"#;
    match compress_source(source, CompressLanguage::TypeScript) {
        CompressResult::Compressed(output) => {
            assert!(
                output.contains("export class UserService"),
                "export class should be preserved"
            );
            assert!(
                output.contains("{ ... }"),
                "method bodies should be compressed"
            );
            assert!(
                !output.contains("await this.db.find"),
                "method body should be stripped"
            );
        }
        CompressResult::Fallback(_, _) => panic!("Expected compression"),
    }
}

#[test]
fn test_compress_python_module_constant() {
    let source = "MAX_RETRIES = 3\nDEBUG = True\n\ndef run():\n    print('running')\n";
    match compress_source(source, CompressLanguage::Python) {
        CompressResult::Compressed(output) => {
            assert!(
                output.contains("MAX_RETRIES = 3"),
                "Module-level constant should be preserved, got: {}",
                output
            );
            assert!(
                output.contains("DEBUG = True"),
                "Module-level boolean constant should be preserved"
            );
            assert!(output.contains("def run():"));
            assert!(
                !output.contains("print('running')"),
                "Function body should be stripped"
            );
        }
        CompressResult::Fallback(_, reason) => {
            panic!("Expected compression, got fallback: {:?}", reason)
        }
    }
}

// Java compression tests
#[test]
fn test_compress_java_class_with_methods() {
    let source = r#"package com.example;

import java.util.List;

public class UserService {
    private final Database db;

    public UserService(Database db) {
        this.db = db;
    }

    public User getUser(String id) {
        User user = db.find(id);
        if (user == null) {
            throw new RuntimeException("Not found");
        }
        return user;
    }

    public List<User> listUsers() {
        return db.findAll();
    }
}"#;
    match compress_source(source, CompressLanguage::Java) {
        CompressResult::Compressed(output) => {
            assert!(output.contains("package com.example;"));
            assert!(output.contains("import java.util.List;"));
            assert!(output.contains("public class UserService"));
            assert!(output.contains("private final Database db;"));
            assert!(output.contains("public UserService(Database db) { ... }"));
            assert!(output.contains("public User getUser(String id) { ... }"));
            assert!(output.contains("public List<User> listUsers() { ... }"));
            assert!(!output.contains("throw new RuntimeException"));
        }
        CompressResult::Fallback(_, reason) => {
            panic!("Expected compression, got fallback: {:?}", reason)
        }
    }
}

#[test]
fn test_compress_java_interface() {
    let source = r#"public interface Repository<T> {
    T findById(String id);
    List<T> findAll();
    void save(T entity);
}"#;
    match compress_source(source, CompressLanguage::Java) {
        CompressResult::Compressed(output) => {
            assert!(output.contains("public interface Repository<T>"));
            assert!(output.contains("T findById(String id);"));
            assert!(output.contains("void save(T entity);"));
        }
        CompressResult::Fallback(_, _) => panic!("Expected compression"),
    }
}

// C# compression tests
#[test]
fn test_compress_csharp_class_with_methods() {
    let source = r#"using System;
using System.Collections.Generic;

namespace MyApp.Services
{
    public class UserService
    {
        private readonly IDatabase _db;

        public UserService(IDatabase db)
        {
            _db = db;
        }

        public User GetUser(string id)
        {
            var user = _db.Find(id);
            if (user == null)
                throw new Exception("Not found");
            return user;
        }
    }
}"#;
    match compress_source(source, CompressLanguage::CSharp) {
        CompressResult::Compressed(output) => {
            assert!(output.contains("using System;"));
            assert!(output.contains("namespace MyApp.Services"));
            assert!(output.contains("public class UserService"));
            assert!(output.contains("public UserService(IDatabase db) { ... }"));
            assert!(output.contains("public User GetUser(string id) { ... }"));
            assert!(!output.contains("throw new Exception"));
        }
        CompressResult::Fallback(_, reason) => {
            panic!("Expected compression, got fallback: {:?}", reason)
        }
    }
}

#[test]
fn test_compress_csharp_interface() {
    let source = r#"public interface IRepository<T>
{
    T FindById(string id);
    IList<T> FindAll();
    void Save(T entity);
}"#;
    match compress_source(source, CompressLanguage::CSharp) {
        CompressResult::Compressed(output) => {
            assert!(output.contains("public interface IRepository<T>"));
            assert!(output.contains("T FindById(string id);"));
        }
        CompressResult::Fallback(_, _) => panic!("Expected compression"),
    }
}

// C compression tests
#[test]
fn test_compress_c_function() {
    let source = r#"#include <stdio.h>
#include <stdlib.h>

#define MAX_SIZE 1024

typedef struct {
    int x;
    int y;
} Point;

int process_data(const char *input, int length) {
    char *buffer = malloc(length);
    if (!buffer) return -1;
    memcpy(buffer, input, length);
    int result = compute(buffer, length);
    free(buffer);
    return result;
}"#;
    match compress_source(source, CompressLanguage::C) {
        CompressResult::Compressed(output) => {
            assert!(output.contains("#include <stdio.h>"));
            assert!(output.contains("#define MAX_SIZE 1024"));
            assert!(output.contains("typedef struct"));
            assert!(output.contains("int process_data(const char *input, int length) { ... }"));
            assert!(!output.contains("malloc"));
        }
        CompressResult::Fallback(_, reason) => {
            panic!("Expected compression, got fallback: {:?}", reason)
        }
    }
}

#[test]
fn test_compress_c_header() {
    let source = r#"#ifndef MYLIB_H
#define MYLIB_H

typedef struct Node {
    int value;
    struct Node *next;
} Node;

int process(const char *input);
void cleanup(Node *head);

#endif"#;
    match compress_source(source, CompressLanguage::C) {
        CompressResult::Compressed(output) => {
            assert!(output.contains("#ifndef MYLIB_H"));
            assert!(output.contains("typedef struct Node"));
            assert!(output.contains("int process(const char *input);"));
        }
        CompressResult::Fallback(_, _) => panic!("Expected compression"),
    }
}

// C++ compression tests
#[test]
fn test_compress_cpp_class() {
    let source = r#"#include <string>
#include <vector>

namespace mylib {

class UserService {
public:
    UserService(Database& db) : db_(db) {
        initialized_ = true;
    }

    User getUser(const std::string& id) {
        auto user = db_.find(id);
        if (!user) throw std::runtime_error("not found");
        return *user;
    }

private:
    Database& db_;
    bool initialized_;
};

}"#;
    match compress_source(source, CompressLanguage::Cpp) {
        CompressResult::Compressed(output) => {
            assert!(output.contains("#include <string>"));
            assert!(output.contains("namespace mylib"));
            assert!(output.contains("class UserService"));
            assert!(output.contains("{ ... }"));
            assert!(!output.contains("throw std::runtime_error"));
        }
        CompressResult::Fallback(_, reason) => {
            panic!("Expected compression, got fallback: {:?}", reason)
        }
    }
}

#[test]
fn test_compress_cpp_template_function() {
    let source = r#"template<typename T>
T max_value(T a, T b) {
    return (a > b) ? a : b;
}"#;
    match compress_source(source, CompressLanguage::Cpp) {
        CompressResult::Compressed(output) => {
            assert!(output.contains("template<typename T>"));
            assert!(output.contains("T max_value(T a, T b) { ... }"));
            assert!(!output.contains("return"));
        }
        CompressResult::Fallback(_, reason) => {
            panic!("Expected compression, got fallback: {:?}", reason)
        }
    }
}

// Ruby compression tests
#[test]
fn test_compress_ruby_class() {
    let source = r#"require 'json'

class UserService
  attr_reader :db

  def initialize(db)
    @db = db
    @cache = {}
  end

  def find_user(id)
    return @cache[id] if @cache.key?(id)
    user = @db.find(id)
    @cache[id] = user
    user
  end
end"#;
    match compress_source(source, CompressLanguage::Ruby) {
        CompressResult::Compressed(output) => {
            assert!(output.contains("require 'json'"));
            assert!(output.contains("class UserService"));
            assert!(output.contains("attr_reader :db"));
            assert!(output.contains("def initialize(db)"));
            assert!(output.contains("..."));
            assert!(output.contains("def find_user(id)"));
            assert!(!output.contains("@cache[id] = user"));
            assert!(output.contains("end"));
        }
        CompressResult::Fallback(_, reason) => {
            panic!("Expected compression, got fallback: {:?}", reason)
        }
    }
}

#[test]
fn test_compress_ruby_module() {
    let source = r#"module Validators
  def self.validate_email(email)
    email.match?(/\A[\w+\-.]+@[a-z\d\-]+(\.[a-z]+)*\.[a-z]+\z/i)
  end

  def self.validate_name(name)
    name.length >= 2 && name.length <= 100
  end
end"#;
    match compress_source(source, CompressLanguage::Ruby) {
        CompressResult::Compressed(output) => {
            assert!(output.contains("module Validators"));
            assert!(output.contains("def self.validate_email(email)"));
            assert!(output.contains("def self.validate_name(name)"));
            assert!(!output.contains("match?"));
        }
        CompressResult::Fallback(_, reason) => {
            panic!("Expected compression, got fallback: {:?}", reason)
        }
    }
}

// PHP compression tests
#[test]
fn test_compress_php_class() {
    let source = r#"<?php

namespace App\Services;

use App\Models\User;

class UserService
{
    private $db;

    public function __construct(Database $db)
    {
        $this->db = $db;
    }

    public function getUser(string $id): User
    {
        $user = $this->db->find($id);
        if (!$user) {
            throw new \Exception('Not found');
        }
        return $user;
    }
}"#;
    match compress_source(source, CompressLanguage::Php) {
        CompressResult::Compressed(output) => {
            assert!(output.contains("<?php"));
            assert!(output.contains("namespace App\\Services;"));
            assert!(output.contains("use App\\Models\\User;"));
            assert!(output.contains("class UserService"));
            assert!(output.contains("public function __construct(Database $db) { ... }"));
            assert!(output.contains("public function getUser(string $id): User { ... }"));
            assert!(!output.contains("throw new"));
        }
        CompressResult::Fallback(_, reason) => {
            panic!("Expected compression, got fallback: {:?}", reason)
        }
    }
}

#[test]
fn test_compress_php_function() {
    let source = r#"<?php

function processData(array $items): int
{
    $count = 0;
    foreach ($items as $item) {
        if ($item->isValid()) {
            $count++;
        }
    }
    return $count;
}"#;
    match compress_source(source, CompressLanguage::Php) {
        CompressResult::Compressed(output) => {
            assert!(output.contains("<?php"));
            assert!(output.contains("function processData(array $items): int { ... }"));
            assert!(!output.contains("foreach"));
        }
        CompressResult::Fallback(_, reason) => {
            panic!("Expected compression, got fallback: {:?}", reason)
        }
    }
}

// Extension mapping tests for new languages
#[test]
fn test_language_for_extension_new_languages() {
    assert_eq!(language_for_extension("java"), Some(CompressLanguage::Java));
    assert_eq!(language_for_extension("cs"), Some(CompressLanguage::CSharp));
    assert_eq!(language_for_extension("c"), Some(CompressLanguage::C));
    assert_eq!(language_for_extension("h"), Some(CompressLanguage::C));
    assert_eq!(language_for_extension("cpp"), Some(CompressLanguage::Cpp));
    assert_eq!(language_for_extension("cc"), Some(CompressLanguage::Cpp));
    assert_eq!(language_for_extension("cxx"), Some(CompressLanguage::Cpp));
    assert_eq!(language_for_extension("hpp"), Some(CompressLanguage::Cpp));
    assert_eq!(language_for_extension("hh"), Some(CompressLanguage::Cpp));
    assert_eq!(language_for_extension("hxx"), Some(CompressLanguage::Cpp));
    assert_eq!(language_for_extension("rb"), Some(CompressLanguage::Ruby));
    assert_eq!(language_for_extension("php"), Some(CompressLanguage::Php));
}

// Edge case tests found during QA review
#[test]
fn test_compress_java_enum_with_constants() {
    let source = r#"public enum Color {
    RED("red"),
    GREEN("green"),
    BLUE("blue");

    private final String code;

    Color(String code) {
        this.code = code;
    }

    public String getCode() {
        return this.code;
    }
}"#;
    match compress_source(source, CompressLanguage::Java) {
        CompressResult::Compressed(output) => {
            assert!(
                output.contains("RED(\"red\")"),
                "Enum constant RED should be preserved, got: {}",
                output
            );
            assert!(
                output.contains("GREEN(\"green\")"),
                "Enum constant GREEN should be preserved"
            );
            assert!(
                output.contains("BLUE(\"blue\")"),
                "Enum constant BLUE should be preserved"
            );
            assert!(
                output.contains("private final String code;"),
                "Enum field should be preserved"
            );
            assert!(
                output.contains("Color(String code) { ... }"),
                "Enum constructor should be compressed, got: {}",
                output
            );
            assert!(
                output.contains("public String getCode() { ... }"),
                "Enum method should be compressed, got: {}",
                output
            );
            assert!(
                !output.contains("return this.code"),
                "Method body should be stripped"
            );
        }
        CompressResult::Fallback(_, reason) => {
            panic!("Expected compression, got fallback: {:?}", reason)
        }
    }
}

#[test]
fn test_compress_php_enum_with_cases() {
    let source = r#"<?php

enum Suit: string
{
    case Hearts = 'H';
    case Diamonds = 'D';
    case Clubs = 'C';
    case Spades = 'S';

    public function color(): string
    {
        return match($this) {
            self::Hearts, self::Diamonds => 'red',
            self::Clubs, self::Spades => 'black',
        };
    }
}"#;
    match compress_source(source, CompressLanguage::Php) {
        CompressResult::Compressed(output) => {
            assert!(
                output.contains("case Hearts = 'H';"),
                "Enum case should be preserved, got: {}",
                output
            );
            assert!(
                output.contains("case Spades = 'S';"),
                "Enum case should be preserved"
            );
            assert!(
                output.contains("public function color(): string { ... }"),
                "Enum method should be compressed, got: {}",
                output
            );
            assert!(!output.contains("match("), "Method body should be stripped");
        }
        CompressResult::Fallback(_, reason) => {
            panic!("Expected compression, got fallback: {:?}", reason)
        }
    }
}

#[test]
fn test_compress_cpp_class_with_preproc() {
    let source = r#"class Config {
public:
    Config() {}

    std::string getName() const {
        return name_;
    }

#ifdef DEBUG
    void debugPrint() {
        std::cout << name_ << std::endl;
    }
#endif

private:
    std::string name_;
};"#;
    match compress_source(source, CompressLanguage::Cpp) {
        CompressResult::Compressed(output) => {
            assert!(output.contains("class Config"));
            assert!(
                output.contains("#ifdef DEBUG"),
                "Preprocessor directive inside class should be preserved, got: {}",
                output
            );
            assert!(
                output.contains("#endif"),
                "Preprocessor endif should be preserved"
            );
            assert!(output.contains("std::string name_;"));
        }
        CompressResult::Fallback(_, reason) => {
            panic!("Expected compression, got fallback: {:?}", reason)
        }
    }
}

#[test]
fn test_compress_csharp_property() {
    let source = r#"public class Person
{
    public string Name { get; set; }
    public int Age { get; set; }

    public string GetGreeting()
    {
        return $"Hello, {Name}!";
    }
}"#;
    match compress_source(source, CompressLanguage::CSharp) {
        CompressResult::Compressed(output) => {
            assert!(output.contains("public class Person"));
            assert!(
                output.contains("Name"),
                "Property name should be preserved, got: {}",
                output
            );
            assert!(output.contains("Age"), "Property name should be preserved");
            assert!(output.contains("public string GetGreeting() { ... }"));
            assert!(!output.contains("Hello, {Name}"));
        }
        CompressResult::Fallback(_, reason) => {
            panic!("Expected compression, got fallback: {:?}", reason)
        }
    }
}

#[test]
fn test_compress_rust_syntax_error_fallback() {
    // Source with syntax errors should fall back to full content
    let source = "fn broken( {\n    this is not valid rust\n}\n";
    match compress_source(source, CompressLanguage::Rust) {
        CompressResult::Compressed(_) => {
            panic!("Syntax error should produce fallback, not compressed")
        }
        CompressResult::Fallback(content, reason) => {
            assert_eq!(content, source, "Fallback should return original content");
            assert!(reason.is_some(), "Fallback should include a warning reason");
            assert!(
                reason.unwrap().contains("ERROR"),
                "Reason should mention ERROR nodes"
            );
        }
    }
}
